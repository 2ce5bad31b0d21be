//! The commands that read or change the configuration, and those that list
//! what there is: what each does to the configuration, and what it prints.

use vstd::prelude::*;
use vstd::string::*;

use crate::config::{
    category_switched, default_base_url, ApprovalSettings, Config, Temperature,
    DEFAULT_EFFORT_STYLE, DEFAULT_MODEL, VALID_EFFORT_STYLES,
};
use crate::offsets::{cut, cut_bytes, lemma_width_grows, on_boundary};
use crate::store::SessionSummary;
use crate::terminal_ui::{
    a_signed_line_shows_its_text, gap, gap_line, no_output, output_views, printed, push_output,
    signed, signed_line, Output, OutputView,
};
use crate::text::{
    cases_agree, chars_of, concat2, concat3, concat4, decimal, decimal_of, lowercase, opt_view,
    parse_unsigned, parse_usize, same, string_of, to_lowercase, trim, trim_chars,
};
use crate::tui::rows::{
    one_span, pieces_stand_one_behind_the_other, push_span, rows_of_pieces_join, span, span_of,
    span_views, two_spans, Span, SpanView, Tone,
};
use crate::tui::transcript::{align_left, left_aligned};
use crate::ui::{
    bool_of, notice_text, on_off, on_off_text, parse_bool, sandbox_notice, sandbox_state_text,
    seq_or,
};

verus! {

/// What a command comes to.
#[derive(Debug, Clone, PartialEq)]
pub struct CommandStep {
    /// Whether the configuration has to be saved first.
    pub save: bool,
    /// Whether the command is refused: what it prints is an error.
    pub fails: bool,
    pub outputs: Vec<Output>,
}

/// A line of plain text.
pub open spec fn plain(text: Seq<char>) -> OutputView {
    OutputView::Line(seq![span_of(text, Tone::Plain)])
}

/// A line that says that something was done.
pub open spec fn done(text: Seq<char>) -> OutputView {
    signed("\u{2713}"@, Tone::Green, text)
}

/// A line that says why something was not done.
pub open spec fn refused(text: Seq<char>) -> OutputView {
    signed("\u{2717}"@, Tone::Red, text)
}

pub(crate) fn plain_line(text: String) -> (r: Output)
    ensures
        r@ == plain(text@),
{
    Output::Line(one_span(Span { content: text, tone: Tone::Plain }))
}

pub(crate) fn done_line(text: &str) -> (r: Output)
    ensures
        r@ == done(text@),
{
    signed_line("\u{2713}", Tone::Green, text)
}

pub(crate) fn refused_line(text: &str) -> (r: Output)
    ensures
        r@ == refused(text@),
{
    signed_line("\u{2717}", Tone::Red, text)
}

pub(crate) fn one_output(output: Output) -> (r: Vec<Output>)
    ensures
        output_views(r@) == seq![output@],
{
    let mut outputs: Vec<Output> = no_output();
    push_output(&mut outputs, output);
    assert(output_views(outputs@) =~= seq![output@]);
    outputs
}

impl CommandStep {
    /// A setting was changed.
    pub open spec fn is_change(self, lines: Seq<OutputView>) -> bool {
        self.save && !self.fails && output_views(self.outputs@) == lines
    }

    /// Something was shown, and nothing changed.
    pub open spec fn is_answer(self, lines: Seq<OutputView>) -> bool {
        !self.save && !self.fails && output_views(self.outputs@) == lines
    }

    /// The command was refused.
    pub open spec fn is_refusal(self, lines: Seq<OutputView>) -> bool {
        !self.save && self.fails && output_views(self.outputs@) == lines
    }
}

fn change(text: &str) -> (r: CommandStep)
    ensures
        r.is_change(seq![done(text@)]),
{
    CommandStep { save: true, fails: false, outputs: one_output(done_line(text)) }
}

fn answer(text: String) -> (r: CommandStep)
    ensures
        r.is_answer(seq![plain(text@)]),
{
    CommandStep { save: false, fails: false, outputs: one_output(plain_line(text)) }
}

fn refusal(text: &str) -> (r: CommandStep)
    ensures
        r.is_refusal(seq![refused(text@)]),
{
    CommandStep { save: false, fails: true, outputs: one_output(refused_line(text)) }
}

fn or_default(value: &Option<String>, fallback: &str) -> (r: String)
    ensures
        r@ == seq_or(opt_view(*value), fallback@),
{
    match value {
        Some(s) => s.clone(),
        None => String::from_str(fallback),
    }
}

/// Sets, clears or shows the default model.
pub fn cmd_model(config: &mut Config, name: Option<String>, clear: bool) -> (r: CommandStep)
    ensures
        if clear {
            &&& *final(config) == (Config { default_model: None, ..*old(config) })
            &&& r.is_change(
                seq![done("Default model cleared, falling back to "@ + DEFAULT_MODEL@)],
            )
        } else {
            match name {
                Some(n) => {
                    &&& *final(config) == (Config { default_model: Some(n), ..*old(config) })
                    &&& r.is_change(seq![done("Default model set to "@ + n@)])
                },
                None => {
                    &&& *final(config) == *old(config)
                    &&& r.is_answer(
                        seq![
                            plain(
                                "Current default model: "@ + seq_or(
                                    opt_view(old(config).default_model),
                                    DEFAULT_MODEL@,
                                ),
                            ),
                        ],
                    )
                },
            }
        },
{
    if clear {
        config.default_model = None;
        return change(&concat2("Default model cleared, falling back to ", DEFAULT_MODEL));
    }
    match name {
        Some(n) => {
            let text: String = concat2("Default model set to ", &n);
            config.default_model = Some(n);
            change(&text)
        },
        None => answer(
            concat2("Current default model: ", &or_default(&config.default_model, DEFAULT_MODEL)),
        ),
    }
}

/// A text without the slashes at its end.
pub open spec fn without_slashes(s: Seq<char>) -> Seq<char>
    decreases s.len(),
{
    if s.len() > 0 && s.last() == '/' {
        without_slashes(s.drop_last())
    } else {
        s
    }
}

fn strip_slashes(s: &[char]) -> (r: String)
    ensures
        r@ == without_slashes(s@),
{
    let mut n: usize = s.len();
    assert(s@.take(n as int) =~= s@);
    while n > 0 && s[n - 1] == '/'
        invariant
            n <= s@.len(),
            without_slashes(s@) == without_slashes(s@.take(n as int)),
        decreases n,
    {
        assert(s@.take(n as int).drop_last() =~= s@.take(n - 1));
        n = n - 1;
    }
    assert(s@.subrange(0, n as int) =~= s@.take(n as int));
    string_of(vstd::slice::slice_subrange(s, 0, n))
}

/// No endpoint ends in a slash.
pub proof fn no_slash_is_left_at_the_end(s: Seq<char>)
    ensures
        without_slashes(s).len() > 0 ==> without_slashes(s).last() != '/',
    decreases s.len(),
{
    if s.len() > 0 && s.last() == '/' {
        no_slash_is_left_at_the_end(s.drop_last());
    }
}

/// Sets, clears or shows the endpoint.
pub fn cmd_endpoint(config: &mut Config, url: Option<String>, clear: bool) -> (r: CommandStep)
    ensures
        *final(config) == (Config { base_url: final(config).base_url, ..*old(config) }),
        if clear {
            &&& final(config).base_url@ == "https://openrouter.ai/api/v1"@
            &&& r.is_change(
                seq![
                    done("Endpoint cleared, falling back to "@ + "https://openrouter.ai/api/v1"@),
                ],
            )
        } else {
            match url {
                Some(u) => {
                    &&& final(config).base_url@ == without_slashes(u@)
                    &&& r.is_change(
                        seq![
                            done("Endpoint set to "@ + without_slashes(u@)),
                            signed(
                                "i"@,
                                Tone::DarkGray,
                                "Remember to run `comms login` if this provider uses a different API key"@,
                            ),
                        ],
                    )
                },
                None => {
                    &&& *final(config) == *old(config)
                    &&& r.is_answer(seq![plain("Current endpoint: "@ + old(config).base_url@)])
                },
            }
        },
{
    if clear {
        config.base_url = default_base_url();
        return change(&concat2("Endpoint cleared, falling back to ", &config.base_url));
    }
    match url {
        Some(u) => {
            let chars: Vec<char> = chars_of(&u);
            config.base_url = strip_slashes(&chars);
            let mut outputs: Vec<Output> = one_output(
                done_line(&concat2("Endpoint set to ", &config.base_url)),
            );
            push_output(
                &mut outputs,
                signed_line(
                    "i",
                    Tone::DarkGray,
                    "Remember to run `comms login` if this provider uses a different API key",
                ),
            );
            assert(output_views(outputs@) =~= seq![
                done("Endpoint set to "@ + without_slashes(u@)),
                signed(
                    "i"@,
                    Tone::DarkGray,
                    "Remember to run `comms login` if this provider uses a different API key"@,
                ),
            ]);
            CommandStep { save: true, fails: false, outputs }
        },
        None => answer(concat2("Current endpoint: ", &config.base_url)),
    }
}

/// Whether an effort style is known.
pub open spec fn is_effort_style(s: Seq<char>) -> bool {
    s == "flat"@ || s == "nested"@ || s == "none"@
}

fn known_effort_style(s: &str) -> (r: bool)
    ensures
        r == is_effort_style(s@),
{
    let mut i: usize = 0;
    while i < 3
        invariant
            i <= 3,
            i >= 1 ==> s@ != "flat"@,
            i >= 2 ==> s@ != "nested"@,
            i >= 3 ==> s@ != "none"@,
        decreases 3 - i,
    {
        if same(s, VALID_EFFORT_STYLES[i]) {
            return true;
        }
        i = i + 1;
    }
    false
}

/// What setting an effort style does, given what the style is in lower case.
pub fn set_effort_style(config: &mut Config, value: &str, normalized: String) -> (r: CommandStep)
    ensures
        if is_effort_style(normalized@) {
            &&& *final(config) == (Config { effort_style: Some(normalized), ..*old(config) })
            &&& r.is_change(seq![done("Effort style set to "@ + normalized@)])
        } else {
            &&& *final(config) == *old(config)
            &&& r.is_refusal(
                seq![
                    refused(
                        "Invalid effort style '"@ + value@ + "'. Valid values: "@
                            + "flat, nested, none"@,
                    ),
                ],
            )
        },
{
    if !known_effort_style(&normalized) {
        return refusal(
            &concat4("Invalid effort style '", value, "'. Valid values: ", "flat, nested, none"),
        );
    }
    let text: String = concat2("Effort style set to ", &normalized);
    config.effort_style = Some(normalized);
    change(&text)
}

/// Sets, clears or shows how the effort level is sent.
pub fn cmd_effort_style(config: &mut Config, value: Option<String>, clear: bool) -> (r: CommandStep)
    ensures
        !clear ==> (value matches Some(v) ==> cases_agree(v@)),
        if clear {
            &&& *final(config) == (Config { effort_style: None, ..*old(config) })
            &&& r.is_change(
                seq![done("Effort style cleared, falling back to "@ + DEFAULT_EFFORT_STYLE@)],
            )
        } else {
            match value {
                Some(v) => if is_effort_style(lowercase(v@)) {
                    &&& opt_view(final(config).effort_style) == Some(lowercase(v@))
                    &&& *final(config) == (Config {
                        effort_style: final(config).effort_style,
                        ..*old(config)
                    })
                    &&& r.is_change(seq![done("Effort style set to "@ + lowercase(v@))])
                } else {
                    &&& *final(config) == *old(config)
                    &&& r.is_refusal(
                        seq![
                            refused(
                                "Invalid effort style '"@ + v@ + "'. Valid values: "@
                                    + "flat, nested, none"@,
                            ),
                        ],
                    )
                },
                None => {
                    &&& *final(config) == *old(config)
                    &&& r.is_answer(
                        seq![
                            plain(
                                "Current effort style: "@ + seq_or(
                                    opt_view(old(config).effort_style),
                                    DEFAULT_EFFORT_STYLE@,
                                ),
                            ),
                        ],
                    )
                },
            }
        },
{
    if clear {
        config.effort_style = None;
        return change(&concat2("Effort style cleared, falling back to ", DEFAULT_EFFORT_STYLE));
    }
    match value {
        Some(v) => {
            let normalized: String = to_lowercase(&v);
            set_effort_style(config, &v, normalized)
        },
        None => answer(
            concat2(
                "Current effort style: ",
                &or_default(&config.effort_style, DEFAULT_EFFORT_STYLE),
            ),
        ),
    }
}

/// Sets, clears or shows the default effort level.
pub fn cmd_effort_level(config: &mut Config, value: Option<String>, clear: bool) -> (r: CommandStep)
    ensures
        if clear {
            &&& *final(config) == (Config { effort_level: None, ..*old(config) })
            &&& r.is_change(
                seq![done("Effort level cleared, falling back to provider default"@)],
            )
        } else {
            match value {
                Some(v) => {
                    &&& *final(config) == (Config { effort_level: Some(v), ..*old(config) })
                    &&& r.is_change(seq![done("Effort level set to "@ + v@)])
                },
                None => {
                    &&& *final(config) == *old(config)
                    &&& r.is_answer(
                        seq![
                            plain(
                                "Current effort level: "@ + seq_or(
                                    opt_view(old(config).effort_level),
                                    "(not set, provider default)"@,
                                ),
                            ),
                        ],
                    )
                },
            }
        },
{
    if clear {
        config.effort_level = None;
        return change("Effort level cleared, falling back to provider default");
    }
    match value {
        Some(v) => {
            let text: String = concat2("Effort level set to ", &v);
            config.effort_level = Some(v);
            change(&text)
        },
        None => answer(
            concat2(
                "Current effort level: ",
                &or_default(&config.effort_level, "(not set, provider default)"),
            ),
        ),
    }
}

/// Sets or shows whether writes are confined.
pub fn cmd_sandbox(config: &mut Config, value: Option<bool>) -> (r: CommandStep)
    ensures
        match value {
            Some(enabled) => {
                &&& *final(config) == (Config { sandbox: enabled, ..*old(config) })
                &&& r.is_change(
                    seq![done(notice_text("Sandbox"@, true, sandbox_state_text(enabled)))],
                )
            },
            None => {
                &&& *final(config) == *old(config)
                &&& r.is_answer(
                    seq![
                        plain(
                            notice_text("Sandbox"@, false, sandbox_state_text(old(config).sandbox)),
                        ),
                    ],
                )
            },
        },
{
    match value {
        Some(enabled) => {
            config.sandbox = enabled;
            change(&sandbox_notice(enabled, true))
        },
        None => answer(sandbox_notice(config.sandbox, false)),
    }
}

/// Sets or shows whether replies stream in.
pub fn cmd_stream(config: &mut Config, value: Option<bool>) -> (r: CommandStep)
    ensures
        match value {
            Some(enabled) => {
                &&& *final(config) == (Config { stream: enabled, ..*old(config) })
                &&& r.is_change(
                    seq![
                        done(
                            "Streaming responses "@ + if enabled {
                                "enabled"@
                            } else {
                                "disabled"@
                            },
                        ),
                    ],
                )
            },
            None => {
                &&& *final(config) == *old(config)
                &&& r.is_answer(
                    seq![plain("Streaming responses: "@ + on_off_text(old(config).stream))],
                )
            },
        },
{
    match value {
        Some(enabled) => {
            config.stream = enabled;
            change(
                &concat2(
                    "Streaming responses ",
                    if enabled {
                        "enabled"
                    } else {
                        "disabled"
                    },
                ),
            )
        },
        None => answer(concat2("Streaming responses: ", &on_off(config.stream))),
    }
}

/// How a cap on iterations is shown.
pub open spec fn cap_text(n: Option<usize>, unset: Seq<char>) -> Seq<char> {
    match n {
        Some(n) => decimal(n as nat),
        None => unset,
    }
}

pub(crate) fn cap_shown(n: Option<usize>, unset: &str) -> (r: String)
    ensures
        r@ == cap_text(n, unset@),
{
    match n {
        Some(n) => decimal_of(n as u64),
        None => String::from_str(unset),
    }
}

/// Sets, clears or shows the default cap on iterations. A cap of none at all
/// is refused.
pub fn cmd_max_iterations(config: &mut Config, value: Option<usize>, clear: bool) -> (r:
    CommandStep)
    ensures
        if clear {
            &&& *final(config) == (Config { max_iterations: None, ..*old(config) })
            &&& r.is_change(
                seq![
                    done(
                        "Default max iterations cleared \u{2014} agent mode now needs one set per call (--max-iterations) or per session (/max-iterations) to run at all"@,
                    ),
                ],
            )
        } else {
            match value {
                Some(n) => if n == 0 {
                    &&& *final(config) == *old(config)
                    &&& r.is_refusal(seq![refused("max-iterations must be greater than 0"@)])
                } else {
                    &&& *final(config) == (Config { max_iterations: Some(n), ..*old(config) })
                    &&& r.is_change(
                        seq![done("Default max iterations set to "@ + decimal(n as nat))],
                    )
                },
                None => {
                    &&& *final(config) == *old(config)
                    &&& r.is_answer(
                        seq![
                            plain(
                                "Current default max iterations: "@ + cap_text(
                                    old(config).max_iterations,
                                    "(not set)"@,
                                ),
                            ),
                        ],
                    )
                },
            }
        },
{
    if clear {
        config.max_iterations = None;
        return change(
            "Default max iterations cleared \u{2014} agent mode now needs one set per call (--max-iterations) or per session (/max-iterations) to run at all",
        );
    }
    match value {
        Some(n) => {
            if n == 0 {
                return refusal("max-iterations must be greater than 0");
            }
            config.max_iterations = Some(n);
            change(&concat2("Default max iterations set to ", &decimal_of(n as u64)))
        },
        None => answer(
            concat2(
                "Current default max iterations: ",
                &cap_shown(config.max_iterations, "(not set)"),
            ),
        ),
    }
}

/// Sets, clears or shows the default temperature, which lies between 0 and 2.
/// `typed` is how the value is shown, and `current` how the one in force is.
pub fn cmd_temperature(
    config: &mut Config,
    value: Option<Temperature>,
    clear: bool,
    typed: &str,
    current: &Option<String>,
) -> (r: CommandStep)
    ensures
        if clear {
            &&& *final(config) == (Config { temperature: None, ..*old(config) })
            &&& r.is_change(
                seq![
                    done(
                        "Default temperature cleared \u{2014} requests now have no temperature field unless set per call (--temperature) or per session (/temperature)"@,
                    ),
                ],
            )
        } else {
            match value {
                Some(t) => if t.in_range() {
                    &&& *final(config) == (Config { temperature: Some(t), ..*old(config) })
                    &&& r.is_change(seq![done("Default temperature set to "@ + typed@)])
                } else {
                    &&& *final(config) == *old(config)
                    &&& r.is_refusal(seq![refused("temperature must be between 0 and 2"@)])
                },
                None => {
                    &&& *final(config) == *old(config)
                    &&& r.is_answer(
                        seq![
                            plain(
                                "Current default temperature: "@ + seq_or(
                                    opt_view(*current),
                                    "(not set)"@,
                                ),
                            ),
                        ],
                    )
                },
            }
        },
{
    if clear {
        config.temperature = None;
        return change(
            "Default temperature cleared \u{2014} requests now have no temperature field unless set per call (--temperature) or per session (/temperature)",
        );
    }
    match value {
        Some(t) => {
            if !t.is_in_range() {
                return refusal("temperature must be between 0 and 2");
            }
            config.temperature = Some(t);
            change(&concat2("Default temperature set to ", typed))
        },
        None => answer(concat2("Current default temperature: ", &or_default(current, "(not set)"))),
    }
}

// ---------------------------------------------------------------------------
// Headers
// ---------------------------------------------------------------------------

/// The name of a header.
pub open spec fn name_of(header: (String, String)) -> Seq<char> {
    let (name, _) = header;
    name@
}

/// Its value.
pub open spec fn value_of(header: (String, String)) -> Seq<char> {
    let (_, value) = header;
    value@
}

/// Where a header stands.
pub open spec fn header_index(headers: Seq<(String, String)>, name: Seq<char>) -> Option<int>
    decreases headers.len(),
{
    if headers.len() == 0 {
        None
    } else {
        match header_index(headers.drop_last(), name) {
            Some(i) => Some(i),
            None => if name_of(headers.last()) == name {
                Some(headers.len() - 1)
            } else {
                None
            },
        }
    }
}

/// The value of a header, where it is set.
pub open spec fn header_value(headers: Seq<(String, String)>, name: Seq<char>) -> Option<
    Seq<char>,
> {
    match header_index(headers, name) {
        Some(i) => Some(value_of(headers[i])),
        None => None,
    }
}

proof fn lemma_header_prefix(headers: Seq<(String, String)>, name: Seq<char>, n: int)
    requires
        0 <= n <= headers.len(),
        header_index(headers.take(n), name) is Some,
    ensures
        header_index(headers, name) == header_index(headers.take(n), name),
    decreases headers.len() - n,
{
    if n == headers.len() {
        assert(headers.take(n) =~= headers);
    } else {
        assert(headers.take(n + 1).drop_last() =~= headers.take(n));
        lemma_header_prefix(headers, name, n + 1);
    }
}

proof fn lemma_header_index(headers: Seq<(String, String)>, name: Seq<char>)
    ensures
        match header_index(headers, name) {
            Some(i) => 0 <= i < headers.len() && name_of(headers[i]) == name,
            None => forall|i: int|
                0 <= i < headers.len() ==> name_of(#[trigger] headers[i]) != name,
        },
    decreases headers.len(),
{
    if headers.len() > 0 {
        lemma_header_index(headers.drop_last(), name);
        assert forall|i: int| header_index(headers, name) is None && 0 <= i < headers.len() implies
            name_of(#[trigger] headers[i]) != name by {
            if i < headers.len() - 1 {
                assert(headers.drop_last()[i] == headers[i]);
            }
        }
    }
}

fn find_header(headers: &Vec<(String, String)>, name: &str) -> (r: Option<usize>)
    ensures
        match r {
            Some(i) => i < headers@.len() && header_index(headers@, name@) == Some(i as int),
            None => header_index(headers@, name@) is None,
        },
{
    let mut i: usize = 0;
    assert(headers@.take(0) =~= Seq::empty());
    while i < headers.len()
        invariant
            i <= headers@.len(),
            header_index(headers@.take(i as int), name@) is None,
        decreases headers@.len() - i,
    {
        assert(headers@.take(i + 1).drop_last() =~= headers@.take(i as int));
        let (key, _) = &headers[i];
        if same(key, name) {
            proof {
                lemma_header_prefix(headers@, name@, i + 1);
            }
            return Some(i);
        }
        i = i + 1;
    }
    assert(headers@.take(i as int) =~= headers@);
    None
}

/// What a command does to the headers.
#[derive(Debug, Clone, PartialEq, Eq)]
pub enum HeaderCommand {
    Show,
    Put { name: String, value: String },
    Unset { name: String },
}

pub open spec fn header_line(header: (String, String)) -> OutputView {
    plain("  "@ + name_of(header) + ": "@ + value_of(header))
}

pub open spec fn header_lines(headers: Seq<(String, String)>) -> Seq<OutputView> {
    headers.map_values(|h: (String, String)| header_line(h))
}

/// The headers with one set: in place of the one with its name, or behind the
/// others.
pub open spec fn with_header(headers: Seq<(String, String)>, name: String, value: String) -> Seq<
    (String, String),
> {
    match header_index(headers, name@) {
        Some(i) => headers.update(i, (name, value)),
        None => headers.push((name, value)),
    }
}

/// The headers with one removed.
pub open spec fn without_header(headers: Seq<(String, String)>, name: Seq<char>) -> Seq<
    (String, String),
> {
    match header_index(headers, name) {
        Some(i) => headers.remove(i),
        None => headers,
    }
}

fn show_headers(headers: &Vec<(String, String)>) -> (r: Vec<Output>)
    ensures
        output_views(r@) == if headers@.len() == 0 {
            seq![plain("No extra headers set."@)]
        } else {
            seq![
                OutputView::Line(seq![span_of("Extra headers:"@, Tone::Blue)]),
                gap(),
            ] + header_lines(headers@)
        },
{
    if headers.len() == 0 {
        return one_output(plain_line(String::from_str("No extra headers set.")));
    }
    let mut outputs: Vec<Output> = one_output(
        Output::Line(one_span(span("Extra headers:", Tone::Blue))),
    );
    push_output(&mut outputs, gap_line());
    let ghost head = output_views(outputs@);
    assert(head =~= seq![
        OutputView::Line(seq![span_of("Extra headers:"@, Tone::Blue)]),
        gap(),
    ]);
    let ghost target = header_lines(headers@);
    let mut i: usize = 0;
    assert(head + target.take(0) =~= head);
    while i < headers.len()
        invariant
            i <= headers@.len(),
            target == header_lines(headers@),
            output_views(outputs@) == head + target.take(i as int),
        decreases headers@.len() - i,
    {
        let (name, value) = &headers[i];
        push_output(&mut outputs, plain_line(concat4("  ", name, ": ", value)));
        assert(target[i as int] == header_line(headers@[i as int]));
        assert(head + target.take(i + 1) =~= (head + target.take(i as int)).push(
            target[i as int],
        ));
        i = i + 1;
    }
    assert(target.take(i as int) =~= target);
    outputs
}

/// Shows, sets or removes a header that goes with every request.
pub fn cmd_headers(config: &mut Config, action: HeaderCommand) -> (r: CommandStep)
    requires
        old(config).wf(),
    ensures
        final(config).wf(),
        *final(config) == (Config { extra_headers: final(config).extra_headers, ..*old(config) }),
        match action {
            HeaderCommand::Show => {
                &&& *final(config) == *old(config)
                &&& r.is_answer(
                    if old(config).extra_headers@.len() == 0 {
                        seq![plain("No extra headers set."@)]
                    } else {
                        seq![
                            OutputView::Line(seq![span_of("Extra headers:"@, Tone::Blue)]),
                            gap(),
                        ] + header_lines(old(config).extra_headers@)
                    },
                )
            },
            HeaderCommand::Put { name, value } => {
                &&& final(config).extra_headers@ == with_header(
                    old(config).extra_headers@,
                    name,
                    value,
                )
                &&& r.is_change(seq![done("Header set: "@ + name@ + ": "@ + value@)])
            },
            HeaderCommand::Unset { name } => {
                &&& final(config).extra_headers@ == without_header(
                    old(config).extra_headers@,
                    name@,
                )
                &&& if header_value(old(config).extra_headers@, name@) is Some {
                    r.is_change(seq![done("Header removed: "@ + name@)])
                } else {
                    r.is_answer(seq![plain("No header named '"@ + name@ + "' was set."@)])
                }
            },
        },
{
    match action {
        HeaderCommand::Show => CommandStep {
            save: false,
            fails: false,
            outputs: show_headers(&config.extra_headers),
        },
        HeaderCommand::Put { name, value } => {
            let text: String = concat4("Header set: ", &name, ": ", &value);
            proof {
                lemma_header_index(config.extra_headers@, name@);
            }
            match find_header(&config.extra_headers, &name) {
                Some(i) => {
                    config.extra_headers.set(i, (name, value));
                },
                None => {
                    config.extra_headers.push((name, value));
                },
            }
            change(&text)
        },
        HeaderCommand::Unset { name } => match find_header(&config.extra_headers, &name) {
            Some(i) => {
                let _ = config.extra_headers.remove(i);
                change(&concat2("Header removed: ", &name))
            },
            None => answer(concat3("No header named '", &name, "' was set.")),
        },
    }
}

/// Whether no name occurs twice.
pub open spec fn names_differ(headers: Seq<(String, String)>) -> bool {
    forall|i: int, j: int|
        0 <= i < j < headers.len() ==> name_of(#[trigger] headers[i]) != name_of(
            #[trigger] headers[j],
        )
}

proof fn lemma_index_is_unique(headers: Seq<(String, String)>, name: Seq<char>, i: int)
    requires
        names_differ(headers),
        0 <= i < headers.len(),
        name_of(headers[i]) == name,
    ensures
        header_index(headers, name) == Some(i),
{
    lemma_header_index(headers, name);
    if header_index(headers, name) is Some {
        let k = header_index(headers, name)->0;
        if k < i {
            assert(name_of(headers[k]) != name_of(headers[i]));
        } else if i < k {
            assert(name_of(headers[i]) != name_of(headers[k]));
        }
    }
}

/// A header reads as it was set, and every other header reads as before.
pub proof fn a_header_reads_as_it_was_set(
    headers: Seq<(String, String)>,
    name: String,
    value: String,
    other: Seq<char>,
)
    requires
        names_differ(headers),
    ensures
        names_differ(with_header(headers, name, value)),
        header_value(with_header(headers, name, value), name@) == Some(value@),
        other != name@ ==> header_value(with_header(headers, name, value), other)
            == header_value(headers, other),
{
    let after = with_header(headers, name, value);
    lemma_header_index(headers, name@);
    lemma_header_index(headers, other);
    lemma_header_index(after, other);
    let at: int = match header_index(headers, name@) {
        Some(i) => i,
        None => headers.len() as int,
    };
    assert forall|i: int, j: int| 0 <= i < j < after.len() implies name_of(#[trigger] after[i])
        != name_of(#[trigger] after[j]) by {
        if i < headers.len() && j < headers.len() {
            assert(name_of(headers[i]) != name_of(headers[j]));
        }
    }
    assert(after[at] == (name, value));
    lemma_index_is_unique(after, name@, at);
    if other != name@ {
        match header_index(headers, other) {
            Some(k) => {
                assert(after[k] == headers[k]);
                lemma_index_is_unique(after, other, k);
            },
            None => {
                if header_index(after, other) is Some {
                    let k = header_index(after, other)->0;
                    assert(name_of(after[k]) == other);
                    if k < headers.len() {
                        assert(name_of(headers[k]) != other);
                    }
                }
            },
        }
    }
}

/// A header that was removed is not set, and every other header reads as
/// before.
pub proof fn a_removed_header_is_gone(
    headers: Seq<(String, String)>,
    name: Seq<char>,
    other: Seq<char>,
)
    requires
        names_differ(headers),
    ensures
        names_differ(without_header(headers, name)),
        header_value(without_header(headers, name), name) is None,
        other != name ==> header_value(without_header(headers, name), other) == header_value(
            headers,
            other,
        ),
{
    let after = without_header(headers, name);
    lemma_header_index(headers, name);
    lemma_header_index(headers, other);
    lemma_header_index(after, name);
    lemma_header_index(after, other);
    if header_index(headers, name) is Some {
        let at = header_index(headers, name)->0;
        assert forall|i: int| 0 <= i < after.len() implies #[trigger] after[i] == headers[if i
            < at {
            i
        } else {
            i + 1
        }] by {}
        assert forall|i: int, j: int| 0 <= i < j < after.len() implies name_of(#[trigger] after[i])
            != name_of(#[trigger] after[j]) by {
            let a = if i < at {
                i
            } else {
                i + 1
            };
            let b = if j < at {
                j
            } else {
                j + 1
            };
            assert(name_of(headers[a]) != name_of(headers[b]));
        }
        assert forall|i: int| 0 <= i < after.len() implies name_of(#[trigger] after[i]) != name by {
            if i < at {
                assert(name_of(headers[i]) != name_of(headers[at]));
            } else {
                assert(name_of(headers[at]) != name_of(headers[i + 1]));
            }
        }
        if other != name {
            match header_index(headers, other) {
                Some(k) => {
                    let n = if k < at {
                        k
                    } else {
                        k - 1
                    };
                    assert(after[n] == headers[k]);
                    lemma_index_is_unique(after, other, n);
                },
                None => {
                    if header_index(after, other) is Some {
                        let k = header_index(after, other)->0;
                        let n = if k < at {
                            k
                        } else {
                            k + 1
                        };
                        assert(after[k] == headers[n]);
                        assert(name_of(headers[n]) != other);
                    }
                },
            }
        }
    }
}

// ---------------------------------------------------------------------------
// Approval
// ---------------------------------------------------------------------------

/// How a switch of the approval settings is shown: a sign and a word.
pub open spec fn approval_spans(enabled: bool) -> Seq<SpanView> {
    if enabled {
        seq![span_of("\u{2713}"@, Tone::Green), span_of(" Ask"@, Tone::Plain)]
    } else {
        seq![span_of("\u{2717}"@, Tone::Yellow), span_of(" Auto"@, Tone::Plain)]
    }
}

/// How a switch of the approval settings is shown.
pub fn format_approval(enabled: bool) -> (r: Vec<Span>)
    ensures
        span_views(r@) == approval_spans(enabled),
{
    if enabled {
        two_spans(span("\u{2713}", Tone::Green), span(" Ask", Tone::Plain))
    } else {
        two_spans(span("\u{2717}", Tone::Yellow), span(" Auto", Tone::Plain))
    }
}

fn behind(first: Vec<Span>, more: Vec<Span>) -> (r: Vec<Span>)
    ensures
        span_views(r@) == span_views(first@) + span_views(more@),
{
    let ghost a = first@;
    let ghost b = more@;
    let mut spans: Vec<Span> = first;
    let mut more: Vec<Span> = more;
    spans.append(&mut more);
    assert(span_views(spans@) =~= span_views(a) + span_views(b));
    spans
}

/// The lines of the approval settings.
pub open spec fn approval_status(approval: ApprovalSettings) -> Seq<OutputView> {
    seq![
        OutputView::Line(
            seq![span_of("  Read from disk:    "@, Tone::Plain)] + approval_spans(approval.read_disk),
        ),
        OutputView::Line(
            seq![span_of("  Write to disk:     "@, Tone::Plain)] + approval_spans(
                approval.write_disk,
            ),
        ),
        OutputView::Line(
            seq![span_of("  Terminal commands: "@, Tone::Plain)] + approval_spans(
                approval.terminal,
            ),
        ),
    ]
}

pub(crate) fn push_approval_status(outputs: &mut Vec<Output>, approval: &ApprovalSettings)
    ensures
        output_views(final(outputs)@) == output_views(old(outputs)@) + approval_status(*approval),
{
    let ghost before = output_views(outputs@);
    push_output(
        outputs,
        Output::Line(
            behind(
                one_span(span("  Read from disk:    ", Tone::Plain)),
                format_approval(approval.read_disk),
            ),
        ),
    );
    push_output(
        outputs,
        Output::Line(
            behind(
                one_span(span("  Write to disk:     ", Tone::Plain)),
                format_approval(approval.write_disk),
            ),
        ),
    );
    push_output(
        outputs,
        Output::Line(
            behind(
                one_span(span("  Terminal commands: ", Tone::Plain)),
                format_approval(approval.terminal),
            ),
        ),
    );
    assert(output_views(outputs@) =~= before + approval_status(*approval));
}

/// What a command does to the approval settings.
#[derive(Debug, Clone, PartialEq, Eq)]
pub enum ApprovalCommand {
    Show,
    Read { enabled: String },
    Write { enabled: String },
    Terminal { enabled: String },
    All { enabled: String },
}

/// A line that says what an approval setting now is.
pub open spec fn approval_changed(what: Seq<char>, enabled: bool) -> OutputView {
    OutputView::Line(
        seq![span_of("\u{2713}"@, Tone::Green), span_of(" "@ + what, Tone::Plain)]
            + approval_spans(enabled),
    )
}

pub(crate) fn approval_changed_line(what: &str, enabled: bool) -> (r: Output)
    ensures
        r@ == approval_changed(what@, enabled),
{
    Output::Line(
        behind(
            two_spans(
                span("\u{2713}", Tone::Green),
                Span { content: concat2(" ", what), tone: Tone::Plain },
            ),
            format_approval(enabled),
        ),
    )
}

/// The approval settings and how they are changed.
pub open spec fn approval_overview(approval: ApprovalSettings) -> Seq<OutputView> {
    seq![OutputView::Line(seq![span_of("Approval Settings:"@, Tone::Blue)])] + approval_status(
        approval,
    ) + seq![
        gap(),
        OutputView::Line(seq![span_of("Usage:"@, Tone::DarkGray)]),
        plain("  comms approval read <on|off>     Set read approval"@),
        plain("  comms approval write <on|off>    Set write approval"@),
        plain("  comms approval terminal <on|off> Set terminal approval"@),
        plain("  comms approval all <on|off>      Set all approvals"@),
    ]
}

fn show_approval(approval: &ApprovalSettings) -> (r: Vec<Output>)
    ensures
        output_views(r@) == approval_overview(*approval),
{
    let mut outputs: Vec<Output> = one_output(
        Output::Line(one_span(span("Approval Settings:", Tone::Blue))),
    );
    push_approval_status(&mut outputs, approval);
    let ghost head = output_views(outputs@);
    push_output(&mut outputs, gap_line());
    push_output(&mut outputs, Output::Line(one_span(span("Usage:", Tone::DarkGray))));
    push_output(
        &mut outputs,
        plain_line(String::from_str("  comms approval read <on|off>     Set read approval")),
    );
    push_output(
        &mut outputs,
        plain_line(String::from_str("  comms approval write <on|off>    Set write approval")),
    );
    push_output(
        &mut outputs,
        plain_line(String::from_str("  comms approval terminal <on|off> Set terminal approval")),
    );
    push_output(
        &mut outputs,
        plain_line(String::from_str("  comms approval all <on|off>      Set all approvals")),
    );
    assert(output_views(outputs@) =~= approval_overview(*approval));
    outputs
}

/// Which category a command is about, its name in a message, and the word that
/// it was given.
pub open spec fn approval_target(action: ApprovalCommand) -> (Seq<char>, Seq<char>, Seq<char>) {
    match action {
        ApprovalCommand::Show => (""@, ""@, ""@),
        ApprovalCommand::Read { enabled } => ("read"@, "Read approval set to "@, enabled@),
        ApprovalCommand::Write { enabled } => ("write"@, "Write approval set to "@, enabled@),
        ApprovalCommand::Terminal { enabled } => (
            "terminal"@,
            "Terminal approval set to "@,
            enabled@,
        ),
        ApprovalCommand::All { enabled } => ("all"@, "All approvals set to "@, enabled@),
    }
}

/// What setting a category does, given what its word was read as.
pub fn set_approval(
    config: &mut Config,
    category: &str,
    what: &str,
    read: Result<bool, String>,
) -> (r: Result<CommandStep, String>)
    ensures
        match read {
            Ok(enabled) => {
                &&& *final(config) == (Config {
                    approval: category_switched(old(config).approval, category@, enabled),
                    ..*old(config)
                })
                &&& r matches Ok(step)
                &&& step.is_change(seq![approval_changed(what@, enabled)])
            },
            Err(message) => *final(config) == *old(config) && r == Err::<CommandStep, String>(
                message,
            ),
        },
{
    match read {
        Ok(enabled) => {
            config.approval = config.approval.with_category(category, enabled);
            let outputs: Vec<Output> = one_output(approval_changed_line(what, enabled));
            Ok(CommandStep { save: true, fails: false, outputs })
        },
        Err(message) => Err(message),
    }
}

/// Shows or sets which kinds of tool call ask first. A word that is no switch
/// is an error.
pub fn cmd_approval(config: &mut Config, action: ApprovalCommand) -> (r: Result<
    CommandStep,
    String,
>)
    ensures
        if action is Show {
            &&& *final(config) == *old(config)
            &&& r matches Ok(step)
            &&& step.is_answer(approval_overview(old(config).approval))
        } else {
            let (category, what, word) = approval_target(action);
            match bool_of(lowercase(word)) {
                Some(enabled) => {
                    &&& *final(config) == (Config {
                        approval: category_switched(old(config).approval, category, enabled),
                        ..*old(config)
                    })
                    &&& r matches Ok(step)
                    &&& step.is_change(seq![approval_changed(what, enabled)])
                },
                None => {
                    &&& *final(config) == *old(config)
                    &&& r matches Err(message)
                    &&& message@ == "Invalid boolean value: '"@ + word
                        + "'. Use true/false, on/off, yes/no, or 1/0"@
                },
            }
        },
{
    match action {
        ApprovalCommand::Show => Ok(
            CommandStep { save: false, fails: false, outputs: show_approval(&config.approval) },
        ),
        ApprovalCommand::Read { enabled } => set_approval(
            config,
            "read",
            "Read approval set to ",
            parse_bool(&enabled),
        ),
        ApprovalCommand::Write { enabled } => set_approval(
            config,
            "write",
            "Write approval set to ",
            parse_bool(&enabled),
        ),
        ApprovalCommand::Terminal { enabled } => set_approval(
            config,
            "terminal",
            "Terminal approval set to ",
            parse_bool(&enabled),
        ),
        ApprovalCommand::All { enabled } => set_approval(
            config,
            "all",
            "All approvals set to ",
            parse_bool(&enabled),
        ),
    }
}

// ---------------------------------------------------------------------------
// Logging in, and what is configured
// ---------------------------------------------------------------------------

/// The endpoint that a line names: without white space around it or slashes
/// at its end.
pub open spec fn endpoint_of(line: Seq<char>) -> Seq<char> {
    without_slashes(trim(line))
}

/// Takes in the endpoint that was typed while logging in. It is kept where it
/// is another than the one in force, and not empty.
pub fn login_endpoint(config: &mut Config, line: &str) -> (r: CommandStep)
    ensures
        *final(config) == (Config { base_url: final(config).base_url, ..*old(config) }),
        if endpoint_of(line@).len() > 0 && endpoint_of(line@) != old(config).base_url@ {
            &&& final(config).base_url@ == endpoint_of(line@)
            &&& r.is_change(seq![done("Endpoint set to "@ + endpoint_of(line@)), gap()])
        } else {
            &&& *final(config) == *old(config)
            &&& r.is_answer(Seq::empty())
        },
{
    let chars: Vec<char> = chars_of(line);
    let endpoint: String = strip_slashes(trim_chars(&chars));
    if !endpoint.as_str().is_empty() && !same(&endpoint, &config.base_url) {
        let mut outputs: Vec<Output> = one_output(
            done_line(&concat2("Endpoint set to ", &endpoint)),
        );
        push_output(&mut outputs, gap_line());
        assert(output_views(outputs@) =~= seq![
            done("Endpoint set to "@ + endpoint_of(line@)),
            gap(),
        ]);
        config.base_url = endpoint;
        CommandStep { save: true, fails: false, outputs }
    } else {
        CommandStep { save: false, fails: false, outputs: no_output() }
    }
}

/// The API key that a line holds; an empty one is refused.
pub fn login_key(line: &str) -> (r: Result<String, CommandStep>)
    ensures
        match r {
            Ok(key) => trim(line@).len() > 0 && key@ == trim(line@),
            Err(step) => trim(line@).len() == 0 && step.is_refusal(
                seq![refused("API key cannot be empty"@)],
            ),
        },
{
    let chars: Vec<char> = chars_of(line);
    let key: &[char] = trim_chars(&chars);
    if key.len() == 0 {
        Err(refusal("API key cannot be empty"))
    } else {
        Ok(string_of(key))
    }
}

/// Whether a key is set, as it is shown.
pub open spec fn key_line(set: bool) -> OutputView {
    OutputView::Line(
        if set {
            seq![
                span_of("  API Key: "@, Tone::Plain),
                span_of("\u{2713}"@, Tone::Green),
                span_of(" Set (OS keychain)"@, Tone::Plain),
            ]
        } else {
            seq![
                span_of("  API Key: "@, Tone::Plain),
                span_of("\u{2717}"@, Tone::Red),
                span_of(" Not set"@, Tone::Plain),
            ]
        },
    )
}

fn key_status(set: bool) -> (r: Output)
    ensures
        r@ == key_line(set),
{
    let mut spans: Vec<Span> = one_span(span("  API Key: ", Tone::Plain));
    if set {
        push_span(&mut spans, span("\u{2713}", Tone::Green));
        push_span(&mut spans, span(" Set (OS keychain)", Tone::Plain));
    } else {
        push_span(&mut spans, span("\u{2717}", Tone::Red));
        push_span(&mut spans, span(" Not set", Tone::Plain));
    }
    assert(span_views(spans@) =~= key_line(set)->Line_0);
    Output::Line(spans)
}

/// The overview of a configuration. `key_set` says whether a key is in the
/// keychain, `temperature` how the temperature is shown, and `path` where the
/// configuration is.
pub open spec fn status_lines(
    config: Config,
    key_set: bool,
    temperature: Option<Seq<char>>,
    path: Seq<char>,
) -> Seq<OutputView> {
    seq![
        gap(),
        OutputView::Line(seq![span_of("AI Comms CLI Configuration:"@, Tone::Blue)]),
        plain("  Base URL: "@ + config.base_url@),
        key_line(key_set),
        plain("  Default model: "@ + seq_or(opt_view(config.default_model), DEFAULT_MODEL@)),
        plain("  Max iterations: "@ + cap_text(config.max_iterations, "(not set)"@)),
        plain("  Temperature: "@ + seq_or(temperature, "(not set)"@)),
        plain(
            "  Effort level: "@ + seq_or(
                opt_view(config.effort_level),
                "(not set, provider default)"@,
            ),
        ),
        plain(
            "  Effort style: "@ + seq_or(opt_view(config.effort_style), DEFAULT_EFFORT_STYLE@),
        ),
        plain("  Streaming: "@ + on_off_text(config.stream)),
        plain("  Sandbox: "@ + on_off_text(config.sandbox)),
    ] + (if config.extra_headers@.len() > 0 {
        seq![plain("  Extra headers: "@ + decimal(config.extra_headers@.len()))]
    } else {
        Seq::empty()
    }) + seq![
        plain("  Config file: "@ + path),
        gap(),
        OutputView::Line(seq![span_of("Approval Settings:"@, Tone::Blue)]),
    ] + approval_status(config.approval) + seq![gap()]
}

/// The overview of a configuration.
pub fn cmd_status(config: &Config, key_set: bool, temperature: &Option<String>, path: &str) -> (r:
    Vec<Output>)
    ensures
        output_views(r@) == status_lines(*config, key_set, opt_view(*temperature), path@),
{
    let mut outputs: Vec<Output> = one_output(gap_line());
    push_output(
        &mut outputs,
        Output::Line(one_span(span("AI Comms CLI Configuration:", Tone::Blue))),
    );
    push_output(&mut outputs, plain_line(concat2("  Base URL: ", &config.base_url)));
    push_output(&mut outputs, key_status(key_set));
    push_output(
        &mut outputs,
        plain_line(
            concat2("  Default model: ", &or_default(&config.default_model, DEFAULT_MODEL)),
        ),
    );
    push_output(
        &mut outputs,
        plain_line(
            concat2("  Max iterations: ", &cap_shown(config.max_iterations, "(not set)")),
        ),
    );
    push_output(
        &mut outputs,
        plain_line(concat2("  Temperature: ", &or_default(temperature, "(not set)"))),
    );
    push_output(
        &mut outputs,
        plain_line(
            concat2(
                "  Effort level: ",
                &or_default(&config.effort_level, "(not set, provider default)"),
            ),
        ),
    );
    push_output(
        &mut outputs,
        plain_line(
            concat2("  Effort style: ", &or_default(&config.effort_style, DEFAULT_EFFORT_STYLE)),
        ),
    );
    push_output(&mut outputs, plain_line(concat2("  Streaming: ", &on_off(config.stream))));
    push_output(&mut outputs, plain_line(concat2("  Sandbox: ", &on_off(config.sandbox))));
    let ghost first = output_views(outputs@);
    let count: usize = config.extra_headers.len();
    if count > 0 {
        push_output(
            &mut outputs,
            plain_line(concat2("  Extra headers: ", &decimal_of(count as u64))),
        );
    }
    let ghost second: Seq<OutputView> = if count > 0 {
        seq![plain("  Extra headers: "@ + decimal(count as nat))]
    } else {
        Seq::empty()
    };
    assert(output_views(outputs@) =~= first + second);
    push_output(&mut outputs, plain_line(concat2("  Config file: ", path)));
    push_output(&mut outputs, gap_line());
    push_output(&mut outputs, Output::Line(one_span(span("Approval Settings:", Tone::Blue))));
    push_approval_status(&mut outputs, &config.approval);
    push_output(&mut outputs, gap_line());
    assert(output_views(outputs@) =~= status_lines(
        *config,
        key_set,
        opt_view(*temperature),
        path@,
    ));
    outputs
}

/// How many models are listed by name.
pub const MODELS_SHOWN: usize = 20;

pub open spec fn model_line(i: int, model: Seq<char>) -> OutputView {
    plain("  "@ + decimal((i + 1) as nat) + ". "@ + model)
}

/// The first models, numbered.
pub open spec fn model_lines(models: Seq<String>, n: int) -> Seq<OutputView> {
    Seq::new(n as nat, |i: int| model_line(i, models[i]@))
}

/// The models that are listed by name.
pub open spec fn listed_models(models: Seq<String>) -> int {
    if models.len() > MODELS_SHOWN {
        MODELS_SHOWN as int
    } else {
        models.len() as int
    }
}

/// The list of models: the first of them, and how many more there are.
pub fn cmd_models(models: &Vec<String>) -> (r: Vec<Output>)
    ensures
        output_views(r@) == seq![
            OutputView::Line(
                seq![span_of("\u{2713}"@, Tone::Green), span_of(" "@, Tone::Plain)],
            ),
            gap(),
            OutputView::Line(
                seq![
                    span_of("Available models ("@ + decimal(models@.len()) + "):"@, Tone::Blue),
                ],
            ),
            gap(),
        ] + model_lines(models@, listed_models(models@)) + (if models@.len() > MODELS_SHOWN {
            seq![
                plain("  ... and "@ + decimal((models@.len() - MODELS_SHOWN) as nat) + " more"@),
            ]
        } else {
            Seq::<OutputView>::empty()
        }),
{
    let count: usize = models.len();
    let mut outputs: Vec<Output> = one_output(
        Output::Line(two_spans(span("\u{2713}", Tone::Green), span(" ", Tone::Plain))),
    );
    push_output(&mut outputs, gap_line());
    push_output(
        &mut outputs,
        Output::Line(
            one_span(
                Span {
                    content: concat3("Available models (", &decimal_of(count as u64), "):"),
                    tone: Tone::Blue,
                },
            ),
        ),
    );
    push_output(&mut outputs, gap_line());
    let ghost head = output_views(outputs@);
    assert(head =~= seq![
        OutputView::Line(seq![span_of("\u{2713}"@, Tone::Green), span_of(" "@, Tone::Plain)]),
        gap(),
        OutputView::Line(
            seq![span_of("Available models ("@ + decimal(models@.len()) + "):"@, Tone::Blue)],
        ),
        gap(),
    ]);
    let shown: usize = if count > MODELS_SHOWN {
        MODELS_SHOWN
    } else {
        count
    };
    let mut i: usize = 0;
    assert(head + model_lines(models@, 0) =~= head);
    while i < shown
        invariant
            i <= shown <= models@.len(),
            output_views(outputs@) == head + model_lines(models@, i as int),
        decreases shown - i,
    {
        push_output(
            &mut outputs,
            plain_line(concat4("  ", &decimal_of(i as u64 + 1), ". ", &models[i])),
        );
        assert(head + model_lines(models@, i + 1) =~= (head + model_lines(models@, i as int)).push(
            model_line(i as int, models@[i as int]@),
        ));
        i = i + 1;
    }
    let ghost all = output_views(outputs@);
    if count > MODELS_SHOWN {
        push_output(
            &mut outputs,
            plain_line(concat3("  ... and ", &decimal_of((count - MODELS_SHOWN) as u64), " more")),
        );
    } else {
        assert(all + Seq::<OutputView>::empty() =~= all);
    }
    assert(output_views(outputs@) =~= all + (if models@.len() > MODELS_SHOWN {
        seq![plain("  ... and "@ + decimal((models@.len() - MODELS_SHOWN) as nat) + " more"@)]
    } else {
        Seq::<OutputView>::empty()
    }));
    outputs
}

// ---------------------------------------------------------------------------
// Saved sessions
// ---------------------------------------------------------------------------

/// The word that asks for a choice among all sessions.
pub const PICK_SESSION_SENTINEL: &'static str = "pick";

/// How the session that is resumed is found.
#[derive(Debug, Clone, PartialEq, Eq)]
pub enum ResumePlan {
    /// By its id or the start of it.
    Find(String),
    /// The user chooses.
    Pick,
}

/// How the session that is resumed is found.
pub fn resume_plan(id_or_prefix: String) -> (r: ResumePlan)
    ensures
        r == if id_or_prefix@ == PICK_SESSION_SENTINEL@ {
            ResumePlan::Pick
        } else {
            ResumePlan::Find(id_or_prefix)
        },
{
    if same(&id_or_prefix, PICK_SESSION_SENTINEL) {
        ResumePlan::Pick
    } else {
        ResumePlan::Find(id_or_prefix)
    }
}

/// The session that was looked for, or that there is none.
pub fn matching_session(id: &str, found: Option<SessionSummary>) -> (r: Result<
    SessionSummary,
    String,
>)
    ensures
        match found {
            Some(summary) => r == Ok::<SessionSummary, String>(summary),
            None => r matches Err(message) && message@ == "No session found matching '"@ + id@
                + "'"@,
        },
{
    match found {
        Some(summary) => Ok(summary),
        None => Err(concat3("No session found matching '", id, "'")),
    }
}

/// Whether the start of every id can be shown.
pub open spec fn ids_show(sessions: Seq<SessionSummary>) -> bool {
    forall|i: int| 0 <= i < sessions.len() ==> on_boundary((#[trigger] sessions[i]).id@, 8)
}

fn start_of_id(id: &str) -> (r: String)
    requires
        on_boundary(id@, 8),
    ensures
        r@ == cut(id@, 8),
{
    proof {
        let k = crate::offsets::chars_before(id@, 8);
        lemma_width_grows(id@, k, id@.len() as int);
        assert(id@.take(id@.len() as int) =~= id@);
    }
    String::from_str(cut_bytes(id, 8))
}

/// A line of the menu: its number, the start of the id, the mode and the
/// title.
pub open spec fn menu_line(i: int, s: SessionSummary) -> OutputView {
    OutputView::Line(
        seq![
            span_of("  "@ + decimal((i + 1) as nat) + ". "@, Tone::Plain),
            span_of(cut(s.id@, 8), Tone::DarkGray),
            span_of(
                "  "@ + left_aligned(
                    if s.kind@ == crate::store::KIND_AGENT_CHAT@ {
                        "agent"@
                    } else {
                        "chat"@
                    },
                    6,
                ) + s.title@,
                Tone::Plain,
            ),
        ],
    )
}

pub open spec fn menu_lines(sessions: Seq<SessionSummary>) -> Seq<OutputView> {
    Seq::new(sessions.len(), |i: int| menu_line(i, sessions[i]))
}

/// The menu of sessions that can be resumed, up to where a number is typed.
pub open spec fn menu(sessions: Seq<SessionSummary>) -> Seq<OutputView> {
    seq![
        OutputView::Line(seq![span_of("Select a session to resume:"@, Tone::Blue)]),
        gap(),
    ] + menu_lines(sessions) + seq![
        gap(),
        OutputView::Text(
            seq![span_of("Session number:"@, Tone::Blue), span_of(" "@, Tone::Plain)],
        ),
    ]
}

fn menu_row(i: usize, s: &SessionSummary) -> (r: Output)
    requires
        on_boundary(s.id@, 8),
        i < usize::MAX,
    ensures
        r@ == menu_line(i as int, *s),
{
    let mut spans: Vec<Span> = two_spans(
        Span { content: concat3("  ", &decimal_of(i as u64 + 1), ". "), tone: Tone::Plain },
        Span { content: start_of_id(&s.id), tone: Tone::DarkGray },
    );
    let mode: &str = if same(&s.kind, crate::store::KIND_AGENT_CHAT) {
        "agent"
    } else {
        "chat"
    };
    push_span(
        &mut spans,
        Span { content: concat3("  ", &align_left(mode, 6), &s.title), tone: Tone::Plain },
    );
    assert(span_views(spans@) =~= menu_line(i as int, *s)->Line_0);
    Output::Line(spans)
}

/// The menu of sessions that can be resumed; an error where there is none.
pub fn resume_menu(sessions: &Vec<SessionSummary>) -> (r: Result<Vec<Output>, String>)
    requires
        ids_show(sessions@),
    ensures
        if sessions@.len() == 0 {
            r matches Err(message) && message@ == "No saved sessions to resume"@
        } else {
            r matches Ok(outputs) && output_views(outputs@) == menu(sessions@)
        },
{
    let count: usize = sessions.len();
    if count == 0 {
        return Err(String::from_str("No saved sessions to resume"));
    }
    let mut outputs: Vec<Output> = one_output(
        Output::Line(one_span(span("Select a session to resume:", Tone::Blue))),
    );
    push_output(&mut outputs, gap_line());
    let ghost head = output_views(outputs@);
    assert(head =~= seq![
        OutputView::Line(seq![span_of("Select a session to resume:"@, Tone::Blue)]),
        gap(),
    ]);
    let ghost target = menu_lines(sessions@);
    let mut i: usize = 0;
    assert(head + target.take(0) =~= head);
    while i < count
        invariant
            i <= count == sessions@.len(),
            ids_show(sessions@),
            target == menu_lines(sessions@),
            output_views(outputs@) == head + target.take(i as int),
        decreases count - i,
    {
        push_output(&mut outputs, menu_row(i, &sessions[i]));
        assert(target[i as int] == menu_line(i as int, sessions@[i as int]));
        assert(head + target.take(i + 1) =~= (head + target.take(i as int)).push(
            target[i as int],
        ));
        i = i + 1;
    }
    assert(target.take(i as int) =~= target);
    push_output(&mut outputs, gap_line());
    push_output(
        &mut outputs,
        Output::Text(two_spans(span("Session number:", Tone::Blue), span(" ", Tone::Plain))),
    );
    assert(output_views(outputs@) =~= menu(sessions@));
    Ok(outputs)
}

/// The session that was chosen by its number; what is no number of the menu is
/// refused.
pub fn chosen_session(sessions: Vec<SessionSummary>, input: &str) -> (r: Result<
    SessionSummary,
    String,
>)
    ensures
        match parse_unsigned(trim(input@), usize::MAX as nat) {
            Some(n) => if 1 <= n <= sessions@.len() {
                r == Ok::<SessionSummary, String>(sessions@[n - 1])
            } else {
                r matches Err(message) && message@ == "Invalid selection: "@ + decimal(n)
            },
            None => r matches Err(message) && message@ == "Invalid selection: '"@ + trim(input@)
                + "'"@,
        },
{
    let chars: Vec<char> = chars_of(input);
    let trimmed: &[char] = trim_chars(&chars);
    match parse_usize(trimmed) {
        Some(n) => {
            if n == 0 || n > sessions.len() {
                return Err(concat2("Invalid selection: ", &decimal_of(n as u64)));
            }
            let mut sessions: Vec<SessionSummary> = sessions;
            Ok(sessions.remove(n - 1))
        },
        None => Err(concat3("Invalid selection: '", &string_of(trimmed), "'")),
    }
}

/// A line of the list of sessions.
pub open spec fn listed_line(s: SessionSummary) -> OutputView {
    OutputView::Line(
        seq![
            span_of("  "@, Tone::Plain),
            span_of(cut(s.id@, 8), Tone::DarkGray),
            span_of("  "@, Tone::Plain),
            span_of("["@ + s.kind@ + "]"@, Tone::DarkGray),
            span_of("  "@ + s.model@ + "  "@ + s.title@, Tone::Plain),
        ],
    )
}

pub open spec fn listed_lines(sessions: Seq<SessionSummary>) -> Seq<OutputView> {
    sessions.map_values(|s: SessionSummary| listed_line(s))
}

fn listed_row(s: &SessionSummary) -> (r: Output)
    requires
        on_boundary(s.id@, 8),
    ensures
        r@ == listed_line(*s),
{
    let mut spans: Vec<Span> = two_spans(
        span("  ", Tone::Plain),
        Span { content: start_of_id(&s.id), tone: Tone::DarkGray },
    );
    push_span(&mut spans, span("  ", Tone::Plain));
    push_span(&mut spans, Span { content: concat3("[", &s.kind, "]"), tone: Tone::DarkGray });
    push_span(
        &mut spans,
        Span { content: concat4("  ", &s.model, "  ", &s.title), tone: Tone::Plain },
    );
    assert(span_views(spans@) =~= listed_line(*s)->Line_0);
    Output::Line(spans)
}

/// The list of saved sessions.
pub fn list_sessions(sessions: &Vec<SessionSummary>) -> (r: Vec<Output>)
    requires
        ids_show(sessions@),
    ensures
        output_views(r@) == if sessions@.len() == 0 {
            seq![plain("No saved sessions."@)]
        } else {
            seq![
                OutputView::Line(seq![span_of("Saved sessions:"@, Tone::Blue)]),
                gap(),
            ] + listed_lines(sessions@)
        },
{
    if sessions.len() == 0 {
        return one_output(plain_line(String::from_str("No saved sessions.")));
    }
    let mut outputs: Vec<Output> = one_output(
        Output::Line(one_span(span("Saved sessions:", Tone::Blue))),
    );
    push_output(&mut outputs, gap_line());
    let ghost head = output_views(outputs@);
    assert(head =~= seq![
        OutputView::Line(seq![span_of("Saved sessions:"@, Tone::Blue)]),
        gap(),
    ]);
    let ghost target = listed_lines(sessions@);
    let mut i: usize = 0;
    assert(head + target.take(0) =~= head);
    while i < sessions.len()
        invariant
            i <= sessions@.len(),
            ids_show(sessions@),
            target == listed_lines(sessions@),
            output_views(outputs@) == head + target.take(i as int),
        decreases sessions@.len() - i,
    {
        push_output(&mut outputs, listed_row(&sessions[i]));
        assert(target[i as int] == listed_line(sessions@[i as int]));
        assert(head + target.take(i + 1) =~= (head + target.take(i as int)).push(
            target[i as int],
        ));
        i = i + 1;
    }
    assert(target.take(i as int) =~= target);
    outputs
}

/// The lines above a saved conversation.
pub fn session_heading(summary: &SessionSummary) -> (r: Vec<Output>)
    ensures
        output_views(r@) == seq![
            OutputView::Line(
                seq![
                    span_of("Session:"@, Tone::Blue),
                    span_of(
                        " "@ + summary.id@ + " ("@ + summary.kind@ + ", "@ + summary.model@ + ")"@,
                        Tone::Plain,
                    ),
                ],
            ),
            gap(),
        ],
{
    let mut text: String = concat4(" ", &summary.id, " (", &summary.kind);
    text.append(", ");
    text.append(&summary.model);
    text.append(")");
    let mut outputs: Vec<Output> = one_output(
        Output::Line(
            two_spans(span("Session:", Tone::Blue), Span { content: text, tone: Tone::Plain }),
        ),
    );
    push_output(&mut outputs, gap_line());
    assert(output_views(outputs@) =~= seq![
        OutputView::Line(
            seq![
                span_of("Session:"@, Tone::Blue),
                span_of(
                    " "@ + summary.id@ + " ("@ + summary.kind@ + ", "@ + summary.model@ + ")"@,
                    Tone::Plain,
                ),
            ],
        ),
        gap(),
    ]);
    outputs
}

/// What is said once a session was deleted.
pub fn deleted_line(summary: &SessionSummary) -> (r: Output)
    ensures
        r@ == done("Deleted session "@ + summary.id@ + " ("@ + summary.title@ + ")"@),
{
    let mut text: String = concat4("Deleted session ", &summary.id, " (", &summary.title);
    text.append(")");
    done_line(&text)
}

// ---------------------------------------------------------------------------
// Laws of the commands
// ---------------------------------------------------------------------------

/// A plain line shows its text and nothing else.
pub proof fn a_plain_line_shows_its_text(text: Seq<char>)
    ensures
        printed(plain(text)) == text,
        printed(done(text)) == "\u{2713}"@ + " "@ + text,
        printed(refused(text)) == "\u{2717}"@ + " "@ + text,
{
    let a = span_of(text, Tone::Plain);
    pieces_stand_one_behind_the_other(a, a, a);
    a_signed_line_shows_its_text("\u{2713}"@, Tone::Green, text);
    a_signed_line_shows_its_text("\u{2717}"@, Tone::Red, text);
}

/// Only slashes are taken off the end of an endpoint.
pub proof fn only_slashes_are_taken_off(s: Seq<char>)
    ensures
        without_slashes(s).len() <= s.len(),
        without_slashes(s) == s.take(without_slashes(s).len() as int),
        forall|i: int| without_slashes(s).len() <= i < s.len() ==> #[trigger] s[i] == '/',
        s.len() > 0 && s.last() != '/' ==> without_slashes(s) == s,
        without_slashes(s.push('/')) == without_slashes(s),
    decreases s.len(),
{
    assert(s.push('/').drop_last() =~= s);
    if s.len() > 0 && s.last() == '/' {
        let rest = s.drop_last();
        only_slashes_are_taken_off(rest);
        let n = without_slashes(s).len() as int;
        assert(s.take(n) =~= rest.take(n));
        assert forall|i: int| n <= i < s.len() implies #[trigger] s[i] == '/' by {
            if i < rest.len() {
                assert(rest[i] == s[i]);
            }
        }
    } else {
        assert(s.take(s.len() as int) =~= s);
    }
}

/// Each category is shown with what it does: asking where its gate is on, and
/// going ahead where it is off.
pub proof fn each_gate_is_shown_as_it_is(approval: ApprovalSettings)
    ensures
        approval_status(approval).len() == 3,
        gate_line_says(approval_status(approval)[0], "  Read from disk:    "@, approval.read_disk),
        gate_line_says(approval_status(approval)[1], "  Write to disk:     "@, approval.write_disk),
        gate_line_says(approval_status(approval)[2], "  Terminal commands: "@, approval.terminal),
{
    a_gate_line_says_what_it_does("  Read from disk:    "@, approval.read_disk);
    a_gate_line_says_what_it_does("  Write to disk:     "@, approval.write_disk);
    a_gate_line_says_what_it_does("  Terminal commands: "@, approval.terminal);
}

/// Whether a line names a category and says what its gate does.
pub open spec fn gate_line_says(line: OutputView, label: Seq<char>, asks: bool) -> bool {
    printed(line) == label + if asks {
        "\u{2713}"@ + " Ask"@
    } else {
        "\u{2717}"@ + " Auto"@
    }
}

proof fn a_gate_line_says_what_it_does(label: Seq<char>, enabled: bool)
    ensures
        gate_line_says(
            OutputView::Line(seq![span_of(label, Tone::Plain)] + approval_spans(enabled)),
            label,
            enabled,
        ),
{
    let a = span_of(label, Tone::Plain);
    pieces_stand_one_behind_the_other(a, a, a);
    let b = approval_spans(enabled)[0];
    let c = approval_spans(enabled)[1];
    pieces_stand_one_behind_the_other(b, c, c);
    assert(approval_spans(enabled) =~= seq![b, c]);
    rows_of_pieces_join(seq![a], approval_spans(enabled));
}

/// The configuration is shown setting by setting, each with the value that it
/// has.
pub proof fn the_configuration_is_shown_as_it_is(
    config: Config,
    key_set: bool,
    temperature: Option<Seq<char>>,
    path: Seq<char>,
)
    ensures
        ({
            let lines = status_lines(config, key_set, temperature, path);
            &&& lines.len() > 11
            &&& printed(lines[2]) == "  Base URL: "@ + config.base_url@
            &&& config.default_model matches Some(m) ==> printed(lines[4]) == "  Default model: "@
                + m@
            &&& config.max_iterations matches Some(n) ==> printed(lines[5])
                == "  Max iterations: "@ + decimal(n as nat)
            &&& temperature matches Some(t) ==> printed(lines[6]) == "  Temperature: "@ + t
            &&& config.effort_level matches Some(e) ==> printed(lines[7]) == "  Effort level: "@
                + e@
            &&& config.effort_style matches Some(e) ==> printed(lines[8]) == "  Effort style: "@
                + e@
            &&& printed(lines[9]) == "  Streaming: "@ + if config.stream {
                "on"@
            } else {
                "off"@
            }
            &&& printed(lines[10]) == "  Sandbox: "@ + if config.sandbox {
                "on"@
            } else {
                "off"@
            }
        }),
{
    a_plain_line_shows_its_text("  Base URL: "@ + config.base_url@);
    a_plain_line_shows_its_text(
        "  Default model: "@ + seq_or(opt_view(config.default_model), DEFAULT_MODEL@),
    );
    a_plain_line_shows_its_text("  Max iterations: "@ + cap_text(config.max_iterations, "(not set)"@));
    a_plain_line_shows_its_text("  Temperature: "@ + seq_or(temperature, "(not set)"@));
    a_plain_line_shows_its_text(
        "  Effort level: "@ + seq_or(opt_view(config.effort_level), "(not set, provider default)"@),
    );
    a_plain_line_shows_its_text(
        "  Effort style: "@ + seq_or(opt_view(config.effort_style), DEFAULT_EFFORT_STYLE@),
    );
    a_plain_line_shows_its_text("  Streaming: "@ + on_off_text(config.stream));
    a_plain_line_shows_its_text("  Sandbox: "@ + on_off_text(config.sandbox));
}

/// Models are listed in their order, numbered from one, up to the limit.
pub proof fn models_are_numbered_from_one(models: Seq<String>, i: int)
    requires
        0 <= i < listed_models(models),
    ensures
        model_lines(models, listed_models(models)).len() == listed_models(models),
        printed(model_lines(models, listed_models(models))[i]) == "  "@ + decimal((i + 1) as nat)
            + ". "@ + models[i]@,
        listed_models(models) <= models.len(),
        models.len() <= MODELS_SHOWN ==> listed_models(models) == models.len(),
        models.len() > MODELS_SHOWN ==> listed_models(models) == MODELS_SHOWN,
{
    a_plain_line_shows_its_text("  "@ + decimal((i + 1) as nat) + ". "@ + models[i]@);
}

/// Headers are shown in their order, each with its own value.
pub proof fn headers_are_shown_with_their_values(headers: Seq<(String, String)>, i: int)
    requires
        0 <= i < headers.len(),
    ensures
        header_lines(headers).len() == headers.len(),
        printed(header_lines(headers)[i]) == "  "@ + headers[i].0@ + ": "@ + headers[i].1@,
{
    a_plain_line_shows_its_text("  "@ + headers[i].0@ + ": "@ + headers[i].1@);
}

/// Sessions are listed in their order, numbered from one, with the start of the
/// id and the title.
pub proof fn sessions_are_numbered_from_one(sessions: Seq<SessionSummary>, i: int)
    requires
        0 <= i < sessions.len(),
    ensures
        menu_lines(sessions).len() == sessions.len(),
        menu(sessions).len() == sessions.len() + 4,
        menu(sessions)[2 + i] == menu_lines(sessions)[i],
        sessions[i].kind@ == "agent_chat"@ ==> printed(menu_lines(sessions)[i]) == "  "@ + decimal(
            (i + 1) as nat,
        ) + ". "@ + cut(sessions[i].id@, 8) + "  "@ + left_aligned("agent"@, 6)
            + sessions[i].title@,
        sessions[i].kind@ != "agent_chat"@ ==> printed(menu_lines(sessions)[i]) == "  "@ + decimal(
            (i + 1) as nat,
        ) + ". "@ + cut(sessions[i].id@, 8) + "  "@ + left_aligned("chat"@, 6)
            + sessions[i].title@,
        listed_lines(sessions).len() == sessions.len(),
{
    let s = sessions[i];
    let word = if s.kind@ == crate::store::KIND_AGENT_CHAT@ {
        "agent"@
    } else {
        "chat"@
    };
    let a = span_of("  "@ + decimal((i + 1) as nat) + ". "@, Tone::Plain);
    let b = span_of(cut(s.id@, 8), Tone::DarkGray);
    let c = span_of("  "@ + left_aligned(word, 6) + s.title@, Tone::Plain);
    pieces_stand_one_behind_the_other(a, b, c);
    assert(menu_lines(sessions)[i] == OutputView::Line(seq![a, b, c]));
    assert(a.content + b.content + c.content =~= "  "@ + decimal((i + 1) as nat) + ". "@ + cut(
        s.id@,
        8,
    ) + "  "@ + left_aligned(word, 6) + s.title@);
}

/// A command of the gates names its own category.
pub proof fn a_gate_command_names_its_category(enabled: String)
    ensures
        approval_target(ApprovalCommand::Read { enabled }).0 == "read"@,
        approval_target(ApprovalCommand::Write { enabled }).0 == "write"@,
        approval_target(ApprovalCommand::Terminal { enabled }).0 == "terminal"@,
        approval_target(ApprovalCommand::All { enabled }).0 == "all"@,
        approval_target(ApprovalCommand::Read { enabled }).2 == enabled@,
        approval_target(ApprovalCommand::Write { enabled }).2 == enabled@,
        approval_target(ApprovalCommand::Terminal { enabled }).2 == enabled@,
        approval_target(ApprovalCommand::All { enabled }).2 == enabled@,
{
}

/// Setting a header touches no other one: each keeps its name, its value and
/// its place.
pub proof fn setting_a_header_touches_no_other(
    headers: Seq<(String, String)>,
    name: String,
    value: String,
    i: int,
)
    requires
        0 <= i < headers.len(),
        headers[i].0@ != name@,
    ensures
        with_header(headers, name, value).len() >= headers.len(),
        with_header(headers, name, value)[i] == headers[i],
{
    lemma_header_index_names(headers, name@);
}

proof fn lemma_header_index_names(headers: Seq<(String, String)>, name: Seq<char>)
    ensures
        header_index(headers, name) matches Some(k) ==> 0 <= k < headers.len() && headers[k].0@
            == name,
    decreases headers.len(),
{
    if headers.len() > 0 {
        lemma_header_index_names(headers.drop_last(), name);
    }
}

/// The key is said to be set or not, as it is.
pub proof fn the_key_is_said_to_be_set_or_not()
    ensures
        printed(key_line(true)) == "  API Key: "@ + "\u{2713}"@ + " Set (OS keychain)"@,
        printed(key_line(false)) == "  API Key: "@ + "\u{2717}"@ + " Not set"@,
{
    let a = span_of("  API Key: "@, Tone::Plain);
    let b = span_of("\u{2713}"@, Tone::Green);
    let c = span_of(" Set (OS keychain)"@, Tone::Plain);
    pieces_stand_one_behind_the_other(a, b, c);
    let d = span_of("\u{2717}"@, Tone::Red);
    let e = span_of(" Not set"@, Tone::Plain);
    pieces_stand_one_behind_the_other(a, d, e);
}

/// A session that is listed shows the start of its id, its kind, its model and
/// its title.
pub proof fn a_listed_session_shows_what_it_is(sessions: Seq<SessionSummary>, i: int)
    requires
        0 <= i < sessions.len(),
    ensures
        printed(listed_lines(sessions)[i]) == "  "@ + cut(sessions[i].id@, 8) + "  "@ + ("["@
            + sessions[i].kind@ + "]"@) + ("  "@ + sessions[i].model@ + "  "@ + sessions[i].title@),
{
    let s = sessions[i];
    let a = span_of("  "@, Tone::Plain);
    let b = span_of(cut(s.id@, 8), Tone::DarkGray);
    let d = span_of("["@ + s.kind@ + "]"@, Tone::DarkGray);
    let e = span_of("  "@ + s.model@ + "  "@ + s.title@, Tone::Plain);
    pieces_stand_one_behind_the_other(a, b, a);
    pieces_stand_one_behind_the_other(d, e, e);
    rows_of_pieces_join(seq![a, b, a], seq![d, e]);
    assert(seq![a, b, a, d, e] =~= seq![a, b, a] + seq![d, e]);
    assert(listed_lines(sessions)[i] == OutputView::Line(seq![a, b, a, d, e]));
    assert(a.content + b.content + a.content + (d.content + e.content) =~= "  "@ + cut(s.id@, 8)
        + "  "@ + d.content + e.content);
}

/// What is said of a gate names it and says what it does now.
pub proof fn a_changed_gate_is_said_as_it_is(what: Seq<char>, enabled: bool)
    ensures
        printed(approval_changed(what, enabled)) == "\u{2713}"@ + " "@ + what + if enabled {
            "\u{2713}"@ + " Ask"@
        } else {
            "\u{2717}"@ + " Auto"@
        },
{
    let a = span_of("\u{2713}"@, Tone::Green);
    let b = span_of(" "@ + what, Tone::Plain);
    pieces_stand_one_behind_the_other(a, b, b);
    let c = approval_spans(enabled)[0];
    let d = approval_spans(enabled)[1];
    pieces_stand_one_behind_the_other(c, d, d);
    assert(approval_spans(enabled) =~= seq![c, d]);
    rows_of_pieces_join(seq![a, b], approval_spans(enabled));
    assert(a.content + b.content =~= "\u{2713}"@ + " "@ + what);
}

/// A number of rounds is shown as it is, and the words for none where there is
/// none; an endpoint is what was typed without what is around it.
pub proof fn a_cap_is_shown_as_it_is(n: usize, unset: Seq<char>, line: Seq<char>)
    ensures
        cap_text(Some(n), unset) == decimal(n as nat),
        cap_text(None, unset) == unset,
        trim(line) == line && (line.len() == 0 || line.last() != '/') ==> endpoint_of(line)
            == line,
        is_effort_style("flat"@) && is_effort_style("nested"@) && is_effort_style("none"@),
        line.len() > 6 ==> !is_effort_style(line),
{
    reveal_strlit("flat");
    reveal_strlit("nested");
    reveal_strlit("none");
}

} // verus!
