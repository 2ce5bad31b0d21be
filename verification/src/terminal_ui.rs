//! The line-by-line front end: what it prints of a turn, and how it asks.

use vstd::prelude::*;
use vstd::string::*;

use crate::offsets::{boundary, byte_width, chars_before, on_boundary, total_width};
use crate::store::Activity;
use crate::text::{
    chars_of, concat2, concat3, concat4, decimal, decimal_of, lowercase, opt_view, same, string_of,
    trim,
};
use crate::tui::rows::{
    ink, one_span, pieces_stand_one_behind_the_other, push_span, rows_of_pieces_join, span, span_of,
    span_views, two_spans, Span, SpanView, Tone,
};
use crate::ui::{
    approval_line, approval_summary, call_rows, category_label, category_label_text, field_views,
    is_yes, json_fields, json_rows, label_text, pair_views, parse_json, parse_yes_no, parsed_json,
    primary_argument, primary_argument_text, response_label, shown_text, shown_value,
    tool_call_fields, AgentEvent, ApprovalRequest, JsonField, JsonFieldView,
};
use crate::wrap::{filled, text_width, wrap_indented_to, wrap_to, wrapped};

verus! {

/// Something to be done on the terminal, or to be reported of the session.
#[derive(Debug, Clone, PartialEq)]
pub enum Output {
    /// Printed, with the line left open.
    Text(Vec<Span>),
    /// Printed, and the line ended.
    Line(Vec<Span>),
    /// A spinner with a message starts.
    StartSpinner(&'static str),
    /// The spinner stops, and its line is cleared.
    StopSpinner,
    /// What the session is doing is written down for whoever watches.
    Report { activity: Activity, detail: Option<String> },
}

/// An output with the characters of its texts.
pub enum OutputView {
    Text(Seq<SpanView>),
    Line(Seq<SpanView>),
    StartSpinner(Seq<char>),
    StopSpinner,
    Report { activity: Activity, detail: Option<Seq<char>> },
}

impl View for Output {
    type V = OutputView;

    open spec fn view(&self) -> OutputView {
        match self {
            Output::Text(spans) => OutputView::Text(span_views(spans@)),
            Output::Line(spans) => OutputView::Line(span_views(spans@)),
            Output::StartSpinner(message) => OutputView::StartSpinner(message@),
            Output::StopSpinner => OutputView::StopSpinner,
            Output::Report { activity, detail } => OutputView::Report {
                activity: *activity,
                detail: opt_view(*detail),
            },
        }
    }
}

pub open spec fn output_views(outputs: Seq<Output>) -> Seq<OutputView> {
    outputs.map_values(|o: Output| o@)
}

/// An empty line.
pub open spec fn gap() -> OutputView {
    OutputView::Line(Seq::empty())
}

/// A line that starts with a sign.
pub open spec fn signed(sign: Seq<char>, tone: Tone, text: Seq<char>) -> OutputView {
    OutputView::Line(seq![span_of(sign, tone), span_of(" "@ + text, Tone::Plain)])
}

pub(crate) fn push_output(outputs: &mut Vec<Output>, output: Output)
    ensures
        output_views(final(outputs)@) == output_views(old(outputs)@).push(output@),
{
    let ghost before = output_views(outputs@);
    outputs.push(output);
    assert(output_views(outputs@) =~= before.push(output@));
}

pub(crate) fn no_output() -> (r: Vec<Output>)
    ensures
        output_views(r@) == Seq::<OutputView>::empty(),
{
    let outputs: Vec<Output> = Vec::new();
    assert(output_views(outputs@) =~= Seq::<OutputView>::empty());
    outputs
}

pub(crate) fn gap_line() -> (r: Output)
    ensures
        r@ == gap(),
{
    let spans: Vec<Span> = Vec::new();
    assert(span_views(spans@) =~= Seq::<SpanView>::empty());
    Output::Line(spans)
}

pub(crate) fn signed_line(sign: &str, tone: Tone, text: &str) -> (r: Output)
    ensures
        r@ == signed(sign@, tone, text@),
{
    Output::Line(
        two_spans(span(sign, tone), Span { content: concat2(" ", text), tone: Tone::Plain }),
    )
}

/// The front end's state.
#[derive(Debug, Clone, PartialEq, Eq)]
pub struct TerminalAgentUi {
    /// Whether arguments, results and thoughts are shown in full.
    pub verbose: bool,
    /// Whether a reply is labelled with its model.
    pub show_model_label: bool,
    /// Whether the spinner runs.
    pub spinning: bool,
    /// Whether what the session is doing is written down.
    pub watched: bool,
    /// The arguments of the call that is under way.
    pub pending_arguments: Option<String>,
    /// Whether the line that names the call is still open.
    pub tool_header_open: bool,
    /// Whether the user was asked about the call.
    pub approval_shown: bool,
    /// Whether nobody is there to watch or to answer.
    pub headless: bool,
}

/// The line of one field.
pub open spec fn field_line(key: Seq<char>, shown: Seq<char>) -> OutputView {
    OutputView::Line(
        seq![
            span_of("     "@, Tone::Plain),
            span_of(key, Tone::DarkGray),
            span_of("  "@ + shown, Tone::Plain),
        ],
    )
}

pub open spec fn field_lines(rows: Seq<(Seq<char>, Seq<char>)>) -> Seq<OutputView> {
    rows.map_values(|row: (Seq<char>, Seq<char>)| field_line(row.0, row.1))
}

fn push_fields(outputs: &mut Vec<Output>, fields: &Vec<(String, String)>)
    ensures
        output_views(final(outputs)@) == output_views(old(outputs)@) + field_lines(
            pair_views(fields@),
        ),
{
    let ghost before = output_views(outputs@);
    let ghost target = field_lines(pair_views(fields@));
    let mut i: usize = 0;
    assert(before + target.take(0) =~= before);
    while i < fields.len()
        invariant
            i <= fields@.len(),
            target == field_lines(pair_views(fields@)),
            output_views(outputs@) == before + target.take(i as int),
        decreases fields@.len() - i,
    {
        let (key, shown) = &fields[i];
        let mut spans: Vec<Span> = two_spans(span("     ", Tone::Plain), span(key, Tone::DarkGray));
        push_span(&mut spans, Span { content: concat2("  ", shown), tone: Tone::Plain });
        assert(pair_views(fields@)[i as int] == (key@, shown@));
        assert(span_views(spans@) =~= seq![
            span_of("     "@, Tone::Plain),
            span_of(key@, Tone::DarkGray),
            span_of("  "@ + shown@, Tone::Plain),
        ]);
        push_output(outputs, Output::Line(spans));
        assert(target.take(i + 1) =~= target.take(i as int).push(target[i as int]));
        assert(output_views(outputs@) =~= before + target.take(i + 1));
        i = i + 1;
    }
    assert(target.take(i as int) =~= target);
}

/// The line that names a call, left open for what comes of it.
pub open spec fn header(name: Seq<char>, primary: Option<Seq<char>>) -> OutputView {
    let named = seq![
        span_of("\u{1f528}"@, Tone::Magenta),
        span_of(" "@, Tone::Plain),
        span_of(name, Tone::Bold),
    ];
    OutputView::Text(
        match primary {
            Some(detail) => named + seq![
                span_of("  "@, Tone::Plain),
                span_of(detail, Tone::DarkGray),
            ],
            None => named,
        },
    )
}

fn header_text(name: &str, arguments: &str) -> (r: Output)
    ensures
        r@ == header(name@, primary_argument_text(arguments@)),
{
    let mut spans: Vec<Span> = two_spans(span("\u{1f528}", Tone::Magenta), span(" ", Tone::Plain));
    push_span(&mut spans, span(name, Tone::Bold));
    let ghost named = seq![
        span_of("\u{1f528}"@, Tone::Magenta),
        span_of(" "@, Tone::Plain),
        span_of(name@, Tone::Bold),
    ];
    assert(span_views(spans@) =~= named);
    match primary_argument(arguments) {
        Some(detail) => {
            push_span(&mut spans, span("  ", Tone::Plain));
            push_span(&mut spans, span(&detail, Tone::DarkGray));
            assert(span_views(spans@) =~= named + seq![
                span_of("  "@, Tone::Plain),
                span_of(detail@, Tone::DarkGray),
            ]);
        },
        None => {},
    }
    Output::Text(spans)
}

/// The marker that closes the line of a call: behind the call where its line
/// is open, and otherwise on a line of its own.
pub open spec fn closing(open: bool, marker: Seq<char>, tone: Tone) -> OutputView {
    OutputView::Line(
        seq![
            span_of(
                if open {
                    " "@
                } else {
                    "  "@
                },
                Tone::Plain,
            ),
            span_of(marker, tone),
        ],
    )
}

/// What is printed of an event.
pub open spec fn event_outputs(
    ui: TerminalAgentUi,
    event: AgentEvent,
    width: usize,
    current_dir: Option<Seq<char>>,
) -> Seq<OutputView> {
    match event {
        AgentEvent::Steered { text } => seq![
            gap(),
            signed("\u{276f}"@, Tone::GreenBold, text@),
        ],
        AgentEvent::IterationStarted { iteration } => if ui.verbose {
            seq![
                gap(),
                OutputView::Line(
                    seq![
                        span_of(
                            "[Iteration "@ + decimal(iteration as nat) + "]"@,
                            Tone::DarkGray,
                        ),
                    ],
                ),
            ]
        } else {
            Seq::empty()
        },
        AgentEvent::RequestStarted => if ui.headless {
            Seq::empty()
        } else {
            seq![OutputView::StartSpinner("Thinking..."@)]
        },
        AgentEvent::RequestFinished => if ui.spinning {
            seq![OutputView::StopSpinner]
        } else {
            Seq::empty()
        },
        AgentEvent::AssistantDelta { .. } => Seq::empty(),
        AgentEvent::AssistantMessage { model, effort_level, text } => seq![
            if ui.show_model_label {
                signed(
                    label_text(model@, opt_view(effort_level)) + ":"@,
                    Tone::Cyan,
                    wrapped(text@, width, "\n"@),
                )
            } else {
                signed("\u{25cf}"@, Tone::Cyan, wrapped(text@, width, "\n"@ + "  "@))
            },
            gap(),
        ],
        AgentEvent::Thinking { text } => if ui.verbose {
            let stopped: Seq<OutputView> = if ui.spinning {
                seq![OutputView::StopSpinner]
            } else {
                Seq::empty()
            };
            stopped + seq![
                OutputView::Line(
                    seq![
                        span_of("\u{1f4ad}"@, Tone::DarkGray),
                        span_of(" "@, Tone::Plain),
                        span_of(wrapped(text@, width, "\n"@ + "   "@), Tone::DarkGrayItalic),
                    ],
                ),
                gap(),
            ]
        } else {
            Seq::empty()
        },
        AgentEvent::ToolCallStarted { name, arguments } => {
            let named = seq![header(name@, primary_argument_text(arguments@))];
            if ui.verbose {
                named + seq![gap()] + field_lines(
                    call_rows(name@, json_rows(arguments@), current_dir),
                )
            } else {
                named
            }
        },
        AgentEvent::ToolCallDenied { .. } => seq![gap()],
        AgentEvent::ToolCallCompleted { name, result } => if ui.pending_arguments is None {
            Seq::empty()
        } else {
            let closed: Seq<OutputView> = if ui.approval_shown {
                Seq::empty()
            } else {
                seq![closing(ui.tool_header_open, "\u{2713}"@, Tone::Green)]
            };
            let shown: Seq<OutputView> = if ui.verbose {
                field_lines(json_rows(result@))
            } else {
                Seq::empty()
            };
            closed + shown + seq![gap()]
        },
        AgentEvent::Error { message } => seq![signed("\u{2717}"@, Tone::Red, message@), gap()],
        AgentEvent::TurnFinished => if ui.verbose {
            seq![
                OutputView::Line(seq![span_of("\u{2713} Agent finished"@, Tone::Green)]),
                gap(),
            ]
        } else {
            Seq::empty()
        },
    }
}

/// The state behind an event.
pub open spec fn event_state(ui: TerminalAgentUi, event: AgentEvent) -> TerminalAgentUi {
    match event {
        AgentEvent::RequestStarted => TerminalAgentUi {
            spinning: ui.spinning || !ui.headless,
            ..ui
        },
        AgentEvent::RequestFinished => TerminalAgentUi { spinning: false, ..ui },
        AgentEvent::Thinking { .. } => TerminalAgentUi {
            spinning: ui.spinning && !ui.verbose,
            ..ui
        },
        AgentEvent::ToolCallStarted { arguments, .. } => TerminalAgentUi {
            tool_header_open: !ui.verbose,
            approval_shown: false,
            pending_arguments: Some(arguments),
            ..ui
        },
        AgentEvent::ToolCallDenied { .. } => TerminalAgentUi { pending_arguments: None, ..ui },
        AgentEvent::ToolCallCompleted { .. } => if ui.pending_arguments is None {
            ui
        } else {
            TerminalAgentUi {
                pending_arguments: None,
                tool_header_open: ui.tool_header_open && ui.approval_shown,
                ..ui
            }
        },
        _ => ui,
    }
}

/// How the content of a file is shown in a question: its first hundred bytes
/// and its length, where it is longer. `None` where the hundredth byte is not
/// the last of a character.
pub open spec fn content_text(s: Seq<char>) -> Option<Seq<char>> {
    if byte_width(s) > 100 {
        if on_boundary(s, 100) {
            Some(
                s.take(chars_before(s, 100)) + "... ("@ + decimal(byte_width(s)) + " chars)"@,
            )
        } else {
            None
        }
    } else {
        Some(s)
    }
}

/// How the content of a file is shown in a question.
pub fn content_shown(s: &str) -> (r: Option<String>)
    ensures
        opt_view(r) == content_text(s@),
{
    let chars: Vec<char> = chars_of(s);
    let total: usize = total_width(s);
    if total > 100 {
        match boundary(&chars, 100) {
            Some(k) => {
                let first: String = string_of(vstd::slice::slice_subrange(chars.as_slice(), 0, k));
                assert(first@ =~= s@.take(k as int));
                Some(concat4(&first, "... (", &decimal_of(total as u64), " chars)"))
            },
            None => None,
        }
    } else {
        Some(string_of(&chars))
    }
}

/// The value of a field in a question: of a file's content only the start.
pub open spec fn asked_value(key: Seq<char>, value: Seq<char>) -> Option<Seq<char>> {
    if key == "content"@ {
        content_text(value)
    } else {
        Some(value)
    }
}

/// The line of a field in a question.
pub open spec fn asked_line(key: Seq<char>, value: Seq<char>) -> OutputView {
    OutputView::Line(
        seq![
            span_of("  "@ + key + ": "@, Tone::Plain),
            span_of(value, Tone::DarkGray),
        ],
    )
}

/// Whether every value can be shown in a question.
pub open spec fn can_ask(fields: Seq<(Seq<char>, JsonFieldView)>) -> bool {
    forall|i: int|
        0 <= i < fields.len() ==> asked_value(
            (#[trigger] fields[i]).0,
            shown_text(fields[i].1),
        ) is Some
}

/// The lines of the fields in a question.
pub open spec fn asked_lines(fields: Seq<(Seq<char>, JsonFieldView)>) -> Seq<OutputView> {
    fields.map_values(
        |f: (Seq<char>, JsonFieldView)|
            asked_line(f.0, asked_value(f.0, shown_text(f.1))->0),
    )
}

/// The question about a call, up to where the answer is typed.
pub open spec fn question(
    ui: TerminalAgentUi,
    request: ApprovalRequest,
    fields: Seq<(Seq<char>, JsonFieldView)>,
) -> Seq<OutputView> {
    seq![
        closing(ui.tool_header_open, "?"@, Tone::Yellow),
        gap(),
        signed(
            "\u{26a0}"@,
            Tone::Yellow,
            category_label_text(request.category@) + " requested:"@,
        ),
        OutputView::Line(
            seq![
                span_of("  Tool: "@, Tone::Plain),
                span_of(request.tool_name@, Tone::Cyan),
            ],
        ),
    ] + asked_lines(fields) + seq![
        gap(),
        OutputView::Text(
            seq![span_of("Allow? [y/N]:"@, Tone::Blue), span_of(" "@, Tone::Plain)],
        ),
    ]
}

/// What is printed where nobody can be asked.
pub open spec fn refusal(ui: TerminalAgentUi, request: ApprovalRequest) -> Seq<OutputView> {
    seq![
        closing(ui.tool_header_open, "\u{2717}"@, Tone::Red),
        OutputView::Line(
            seq![
                span_of("  "@, Tone::Plain),
                span_of("denied:"@, Tone::Red),
                span_of(" "@, Tone::Plain),
                span_of(request.tool_name@, Tone::Cyan),
                span_of(" needs approval, and --headless cannot ask"@, Tone::Plain),
            ],
        ),
    ]
}

/// The fields that a question shows: those of the arguments, where they can be
/// read.
pub open spec fn asked_fields(arguments: Seq<char>) -> Seq<(Seq<char>, JsonFieldView)> {
    match parsed_json(arguments) {
        Ok(fields) => fields,
        Err(_) => Seq::empty(),
    }
}

/// How a request for approval goes on.
#[derive(Debug, Clone, PartialEq)]
pub enum Prompt {
    /// It is denied; nobody can be asked.
    Denied(Vec<Output>),
    /// The user is asked, and types an answer.
    Ask(Vec<Output>),
    /// The question cannot be shown.
    Unshowable,
}

impl TerminalAgentUi {
    pub fn new(verbose: bool, show_model_label: bool) -> (r: Self)
        ensures
            r == (TerminalAgentUi {
                verbose,
                show_model_label,
                spinning: false,
                watched: false,
                pending_arguments: None,
                tool_header_open: false,
                approval_shown: false,
                headless: false,
            }),
    {
        TerminalAgentUi {
            verbose,
            show_model_label,
            spinning: false,
            watched: false,
            pending_arguments: None,
            tool_header_open: false,
            approval_shown: false,
            headless: false,
        }
    }

    /// Has what the session is doing written down.
    pub fn watch(&mut self)
        ensures
            *final(self) == (TerminalAgentUi { watched: true, ..*old(self) }),
    {
        self.watched = true;
    }

    /// Gives up everything that needs somebody at the terminal.
    pub fn go_headless(&mut self)
        ensures
            *final(self) == (TerminalAgentUi { headless: true, ..*old(self) }),
    {
        self.headless = true;
    }

    /// Changes how much is shown, from the next event on.
    pub fn set_verbose(&mut self, verbose: bool)
        ensures
            *final(self) == (TerminalAgentUi { verbose, ..*old(self) }),
    {
        self.verbose = verbose;
    }

    fn close_tool_header(&mut self, marker: &str, tone: Tone) -> (r: Output)
        ensures
            r@ == closing(old(self).tool_header_open, marker@, tone),
            *final(self) == (TerminalAgentUi { tool_header_open: false, ..*old(self) }),
    {
        let lead: &str = if self.tool_header_open {
            " "
        } else {
            "  "
        };
        self.tool_header_open = false;
        Output::Line(two_spans(span(lead, Tone::Plain), span(marker, tone)))
    }

    fn tool_started(&mut self, name: String, arguments: String, current_dir: Option<String>) -> (r:
        Vec<Output>)
        ensures
            ({
                let event = AgentEvent::ToolCallStarted { name, arguments };
                &&& *final(self) == event_state(*old(self), event)
                &&& output_views(r@) == event_outputs(*old(self), event, 0, opt_view(current_dir))
            }),
    {
        let mut outputs: Vec<Output> = no_output();
        push_output(&mut outputs, header_text(&name, &arguments));
        assert(output_views(outputs@) =~= seq![
            header(name@, primary_argument_text(arguments@)),
        ]);
        self.tool_header_open = true;
        self.approval_shown = false;
        if self.verbose {
            push_output(&mut outputs, gap_line());
            self.tool_header_open = false;
            let fields: Vec<(String, String)> = tool_call_fields(&name, &arguments, current_dir);
            assert(output_views(outputs@) =~= seq![
                header(name@, primary_argument_text(arguments@)),
            ] + seq![gap()]);
            push_fields(&mut outputs, &fields);
        }
        self.pending_arguments = Some(arguments);
        outputs
    }

    fn tool_completed(&mut self, name: String, result: String) -> (r: Vec<Output>)
        ensures
            ({
                let event = AgentEvent::ToolCallCompleted { name, result };
                &&& *final(self) == event_state(*old(self), event)
                &&& output_views(r@) == event_outputs(*old(self), event, 0, None)
            }),
    {
        let mut outputs: Vec<Output> = no_output();
        if self.pending_arguments.is_none() {
            return outputs;
        }
        self.pending_arguments = None;
        let ghost closed: Seq<OutputView> = if self.approval_shown {
            Seq::empty()
        } else {
            seq![closing(self.tool_header_open, "\u{2713}"@, Tone::Green)]
        };
        if !self.approval_shown {
            let line: Output = self.close_tool_header("\u{2713}", Tone::Green);
            push_output(&mut outputs, line);
        }
        assert(output_views(outputs@) =~= closed);
        let ghost shown: Seq<OutputView> = if self.verbose {
            field_lines(json_rows(result@))
        } else {
            Seq::empty()
        };
        if self.verbose {
            let fields: Vec<(String, String)> = json_fields(&result);
            push_fields(&mut outputs, &fields);
        }
        assert(output_views(outputs@) =~= closed + shown);
        push_output(&mut outputs, gap_line());
        assert(output_views(outputs@) =~= closed + shown + seq![gap()]);
        outputs
    }

    fn thought(&mut self, text: String, width: usize) -> (r: Vec<Output>)
        ensures
            ({
                let event = AgentEvent::Thinking { text };
                &&& *final(self) == event_state(*old(self), event)
                &&& output_views(r@) == event_outputs(*old(self), event, width, None)
            }),
    {
        let mut outputs: Vec<Output> = no_output();
        if !self.verbose {
            return outputs;
        }
        let ghost stopped: Seq<OutputView> = if self.spinning {
            seq![OutputView::StopSpinner]
        } else {
            Seq::empty()
        };
        if self.spinning {
            self.spinning = false;
            push_output(&mut outputs, Output::StopSpinner);
        }
        assert(output_views(outputs@) =~= stopped);
        let mut spans: Vec<Span> = two_spans(
            span("\u{1f4ad}", Tone::DarkGray),
            span(" ", Tone::Plain),
        );
        push_span(
            &mut spans,
            Span { content: wrap_indented_to(&text, "   ", width), tone: Tone::DarkGrayItalic },
        );
        let ghost line = seq![
            span_of("\u{1f4ad}"@, Tone::DarkGray),
            span_of(" "@, Tone::Plain),
            span_of(wrapped(text@, width, "\n"@ + "   "@), Tone::DarkGrayItalic),
        ];
        assert(span_views(spans@) =~= line);
        push_output(&mut outputs, Output::Line(spans));
        push_output(&mut outputs, gap_line());
        assert(output_views(outputs@) =~= stopped + seq![OutputView::Line(line), gap()]);
        outputs
    }

    fn reply(&self, model: String, effort_level: Option<String>, text: String, width: usize) -> (r:
        Vec<Output>)
        ensures
            output_views(r@) == event_outputs(
                *self,
                AgentEvent::AssistantMessage { model, effort_level, text },
                width,
                None,
            ),
    {
        let mut outputs: Vec<Output> = no_output();
        if self.show_model_label {
            let label: String = concat2(&response_label(&model, &effort_level), ":");
            let body: String = wrap_to(&text, width);
            push_output(&mut outputs, signed_line(&label, Tone::Cyan, &body));
        } else {
            let body: String = wrap_indented_to(&text, "  ", width);
            push_output(&mut outputs, signed_line("\u{25cf}", Tone::Cyan, &body));
        }
        push_output(&mut outputs, gap_line());
        assert(output_views(outputs@) =~= event_outputs(
            *self,
            AgentEvent::AssistantMessage { model, effort_level, text },
            width,
            None,
        ));
        outputs
    }

    /// Takes in an event, and says what is printed of it at a given width.
    /// `current_dir` is where the process is, if that is known.
    pub fn render_event(
        &mut self,
        event: AgentEvent,
        width: usize,
        current_dir: Option<String>,
    ) -> (r: Vec<Output>)
        ensures
            *final(self) == event_state(*old(self), event),
            output_views(r@) == event_outputs(*old(self), event, width, opt_view(current_dir)),
    {
        let ghost target = event_outputs(*self, event, width, opt_view(current_dir));
        let mut outputs: Vec<Output> = no_output();
        match event {
            AgentEvent::Steered { text } => {
                push_output(&mut outputs, gap_line());
                push_output(&mut outputs, signed_line("\u{276f}", Tone::GreenBold, &text));
            },
            AgentEvent::IterationStarted { iteration } => {
                if self.verbose {
                    push_output(&mut outputs, gap_line());
                    let text: String = concat3("[Iteration ", &decimal_of(iteration as u64), "]");
                    push_output(
                        &mut outputs,
                        Output::Line(one_span(Span { content: text, tone: Tone::DarkGray })),
                    );
                }
            },
            AgentEvent::RequestStarted => {
                if !self.headless {
                    self.spinning = true;
                    push_output(&mut outputs, Output::StartSpinner("Thinking..."));
                }
            },
            AgentEvent::RequestFinished => {
                if self.spinning {
                    self.spinning = false;
                    push_output(&mut outputs, Output::StopSpinner);
                }
            },
            AgentEvent::AssistantDelta { .. } => {},
            AgentEvent::AssistantMessage { model, effort_level, text } => {
                return self.reply(model, effort_level, text, width);
            },
            AgentEvent::Thinking { text } => {
                return self.thought(text, width);
            },
            AgentEvent::ToolCallStarted { name, arguments } => {
                return self.tool_started(name, arguments, current_dir);
            },
            AgentEvent::ToolCallDenied { .. } => {
                self.pending_arguments = None;
                push_output(&mut outputs, gap_line());
            },
            AgentEvent::ToolCallCompleted { name, result } => {
                return self.tool_completed(name, result);
            },
            AgentEvent::Error { message } => {
                push_output(&mut outputs, signed_line("\u{2717}", Tone::Red, &message));
                push_output(&mut outputs, gap_line());
            },
            AgentEvent::TurnFinished => {
                if self.verbose {
                    push_output(
                        &mut outputs,
                        Output::Line(one_span(span("\u{2713} Agent finished", Tone::Green))),
                    );
                    push_output(&mut outputs, gap_line());
                }
            },
        }
        assert(output_views(outputs@) =~= target);
        outputs
    }

    /// Takes in an event, and says what is printed of it at the terminal's
    /// width.
    pub fn render_agent_event(&mut self, event: AgentEvent, current_dir: Option<String>) -> (r: Vec<
        Output,
    >)
        ensures
            *final(self) == event_state(*old(self), event),
            exists|width: usize|
                width >= 20 && output_views(r@) == #[trigger] event_outputs(
                    *old(self),
                    event,
                    width,
                    opt_view(current_dir),
                ),
    {
        self.render_event(event, text_width(), current_dir)
    }

    /// Asks about a call, given the fields of its arguments; where a value
    /// cannot be shown, nothing is asked.
    pub fn ask_approval(&mut self, request: &ApprovalRequest, fields: &Vec<(String, JsonField)>) -> (r:
        Option<Vec<Output>>)
        ensures
            can_ask(field_views(fields@)) ==> {
                &&& r matches Some(outputs)
                &&& output_views(outputs@) == question(*old(self), *request, field_views(fields@))
                &&& *final(self) == (TerminalAgentUi {
                    tool_header_open: false,
                    approval_shown: true,
                    ..*old(self)
                })
            },
            !can_ask(field_views(fields@)) ==> r is None && *final(self) == *old(self),
    {
        let ghost views = field_views(fields@);
        let mut lines: Vec<Output> = no_output();
        let mut i: usize = 0;
        assert(asked_lines(views).take(0) =~= Seq::<OutputView>::empty());
        while i < fields.len()
            invariant
                i <= fields@.len(),
                views == field_views(fields@),
                *self == *old(self),
                forall|k: int|
                    0 <= k < i ==> asked_value(
                        (#[trigger] views[k]).0,
                        shown_text(views[k].1),
                    ) is Some,
                output_views(lines@) == asked_lines(views).take(i as int),
            decreases fields@.len() - i,
        {
            let (key, value) = &fields[i];
            assert(views[i as int] == (key@, value@));
            let shown: String = shown_value(value);
            let asked: Option<String> = if same(key, "content") {
                content_shown(&shown)
            } else {
                Some(shown)
            };
            match asked {
                Some(text) => {
                    push_output(
                        &mut lines,
                        Output::Line(
                            two_spans(
                                Span { content: concat3("  ", key, ": "), tone: Tone::Plain },
                                Span { content: text, tone: Tone::DarkGray },
                            ),
                        ),
                    );
                    assert(asked_lines(views)[i as int] == asked_line(key@, text@));
                    assert(asked_lines(views).take(i + 1) =~= asked_lines(views).take(
                        i as int,
                    ).push(asked_lines(views)[i as int]));
                },
                None => {
                    assert(asked_value(views[i as int].0, shown_text(views[i as int].1)) is None);
                    return None;
                },
            }
            i = i + 1;
        }
        assert(asked_lines(views).take(i as int) =~= asked_lines(views));
        let mut outputs: Vec<Output> = no_output();
        let closed: Output = self.close_tool_header("?", Tone::Yellow);
        push_output(&mut outputs, closed);
        self.approval_shown = true;
        push_output(&mut outputs, gap_line());
        let what: String = concat2(category_label(request.category), " requested:");
        push_output(&mut outputs, signed_line("\u{26a0}", Tone::Yellow, &what));
        push_output(
            &mut outputs,
            Output::Line(
                two_spans(span("  Tool: ", Tone::Plain), span(&request.tool_name, Tone::Cyan)),
            ),
        );
        append_outputs(&mut outputs, lines);
        push_output(&mut outputs, gap_line());
        push_output(
            &mut outputs,
            Output::Text(two_spans(span("Allow? [y/N]:", Tone::Blue), span(" ", Tone::Plain))),
        );
        assert(output_views(outputs@) =~= question(*old(self), *request, views));
        Some(outputs)
    }

    fn refuse(&mut self, request: &ApprovalRequest) -> (r: Vec<Output>)
        ensures
            output_views(r@) == refusal(*old(self), *request),
            *final(self) == (TerminalAgentUi {
                tool_header_open: false,
                approval_shown: true,
                ..*old(self)
            }),
    {
        let mut outputs: Vec<Output> = no_output();
        let closed: Output = self.close_tool_header("\u{2717}", Tone::Red);
        push_output(&mut outputs, closed);
        self.approval_shown = true;
        let mut spans: Vec<Span> = two_spans(span("  ", Tone::Plain), span("denied:", Tone::Red));
        push_span(&mut spans, span(" ", Tone::Plain));
        push_span(&mut spans, span(&request.tool_name, Tone::Cyan));
        push_span(&mut spans, span(" needs approval, and --headless cannot ask", Tone::Plain));
        assert(span_views(spans@) =~= seq![
            span_of("  "@, Tone::Plain),
            span_of("denied:"@, Tone::Red),
            span_of(" "@, Tone::Plain),
            span_of(request.tool_name@, Tone::Cyan),
            span_of(" needs approval, and --headless cannot ask"@, Tone::Plain),
        ]);
        push_output(&mut outputs, Output::Line(spans));
        assert(output_views(outputs@) =~= refusal(*old(self), *request));
        outputs
    }

    /// Asks whether a call may run. Where nobody can be asked it is denied;
    /// otherwise whoever watches the session is told first.
    pub fn prompt_approval(&mut self, request: &ApprovalRequest) -> (r: Prompt)
        ensures
            if old(self).headless {
                &&& r matches Prompt::Denied(outputs)
                &&& output_views(outputs@) == refusal(*old(self), *request)
                &&& *final(self) == (TerminalAgentUi {
                    tool_header_open: false,
                    approval_shown: true,
                    ..*old(self)
                })
            } else if can_ask(asked_fields(request.arguments@)) {
                &&& r matches Prompt::Ask(outputs)
                &&& output_views(outputs@) == waiting_report(*old(self), *request) + question(
                    *old(self),
                    *request,
                    asked_fields(request.arguments@),
                )
                &&& *final(self) == (TerminalAgentUi {
                    tool_header_open: false,
                    approval_shown: true,
                    ..*old(self)
                })
            } else {
                r is Unshowable && *final(self) == *old(self)
            },
    {
        if self.headless {
            return Prompt::Denied(self.refuse(request));
        }
        let fields: Vec<(String, JsonField)> = match parse_json(&request.arguments) {
            Ok(fields) => fields,
            Err(_) => Vec::new(),
        };
        assert(field_views(fields@) =~= asked_fields(request.arguments@));
        let mut outputs: Vec<Output> = no_output();
        if self.watched {
            push_output(
                &mut outputs,
                Output::Report {
                    activity: Activity::AwaitingApproval,
                    detail: Some(approval_summary(request)),
                },
            );
        }
        assert(output_views(outputs@) =~= waiting_report(*self, *request));
        match self.ask_approval(request, &fields) {
            Some(asked) => {
                append_outputs(&mut outputs, asked);
                Prompt::Ask(outputs)
            },
            None => Prompt::Unshowable,
        }
    }

    /// Takes in what the user typed: whether the call may run, and what is
    /// reported.
    pub fn answered(&self, input: &str) -> (r: (bool, Vec<Output>))
        ensures
            r.0 == is_yes(lowercase(trim(input@))),
            output_views(r.1@) == if self.watched {
                seq![OutputView::Report { activity: Activity::Working, detail: None }]
            } else {
                Seq::<OutputView>::empty()
            },
    {
        let mut outputs: Vec<Output> = no_output();
        if self.watched {
            push_output(
                &mut outputs,
                Output::Report { activity: Activity::Working, detail: None },
            );
            assert(output_views(outputs@) =~= seq![
                OutputView::Report { activity: Activity::Working, detail: None },
            ]);
        }
        (parse_yes_no(input), outputs)
    }
}

/// What whoever watches the session is told before a question.
pub open spec fn waiting_report(ui: TerminalAgentUi, request: ApprovalRequest) -> Seq<OutputView> {
    if ui.watched {
        seq![
            OutputView::Report {
                activity: Activity::AwaitingApproval,
                detail: Some(
                    approval_line(
                        request.tool_name@,
                        primary_argument_text(request.arguments@),
                    ),
                ),
            },
        ]
    } else {
        Seq::empty()
    }
}

pub(crate) fn append_outputs(outputs: &mut Vec<Output>, more: Vec<Output>)
    ensures
        output_views(final(outputs)@) == output_views(old(outputs)@) + output_views(more@),
{
    let mut more: Vec<Output> = more;
    let ghost before = outputs@;
    let ghost added = more@;
    outputs.append(&mut more);
    assert(output_views(outputs@) =~= output_views(before) + output_views(added));
}

/// A call that was denied is not reported as done: its completion prints
/// nothing.
pub proof fn a_denied_call_is_not_reported_again(
    ui: TerminalAgentUi,
    denied: AgentEvent,
    completed: AgentEvent,
    width: usize,
    current_dir: Option<Seq<char>>,
)
    requires
        denied is ToolCallDenied,
        completed is ToolCallCompleted,
    ensures
        event_outputs(event_state(ui, denied), completed, width, current_dir) == Seq::<
            OutputView,
        >::empty(),
{
}

/// A call that the user was asked about gets no marker when it is done: the
/// answer says how it ended.
pub proof fn an_asked_call_gets_no_second_marker(
    ui: TerminalAgentUi,
    completed: AgentEvent,
    width: usize,
    current_dir: Option<Seq<char>>,
    i: int,
)
    requires
        completed is ToolCallCompleted,
        ui.approval_shown,
        0 <= i < event_outputs(ui, completed, width, current_dir).len(),
    ensures
        event_outputs(ui, completed, width, current_dir)[i] != closing(
            ui.tool_header_open,
            "\u{2713}"@,
            Tone::Green,
        ),
{
    let line = event_outputs(ui, completed, width, current_dir)[i];
    let marker = closing(ui.tool_header_open, "\u{2713}"@, Tone::Green);
    assert(marker->Line_0.len() == 2);
    let result = completed->ToolCallCompleted_result@;
    if ui.verbose && i < json_rows(result).len() {
        let row = json_rows(result)[i];
        assert(line == field_line(row.0, row.1));
        assert(line->Line_0.len() == 3);
    } else {
        assert(line == gap());
        assert(line->Line_0.len() == 0);
    }
}

/// Without anybody at the terminal no spinner ever runs, whatever happens.
pub proof fn nothing_spins_without_a_terminal(ui: TerminalAgentUi, events: Seq<AgentEvent>)
    requires
        ui.headless,
        !ui.spinning,
    ensures
        !states(ui, events).spinning,
        states(ui, events).headless,
    decreases events.len(),
{
    if events.len() > 0 {
        nothing_spins_without_a_terminal(ui, events.drop_last());
    }
}

/// The state behind several events.
pub open spec fn states(ui: TerminalAgentUi, events: Seq<AgentEvent>) -> TerminalAgentUi
    decreases events.len(),
{
    if events.len() == 0 {
        ui
    } else {
        event_state(states(ui, events.drop_last()), events.last())
    }
}

/// The spinner stops only where it runs: an event that stops it found it
/// running, and it does not run behind the event.
pub proof fn only_a_running_spinner_stops(
    ui: TerminalAgentUi,
    event: AgentEvent,
    width: usize,
    current_dir: Option<Seq<char>>,
    i: int,
)
    requires
        0 <= i < event_outputs(ui, event, width, current_dir).len(),
        event_outputs(ui, event, width, current_dir)[i] is StopSpinner,
    ensures
        ui.spinning,
        !event_state(ui, event).spinning,
{
    match event {
        AgentEvent::ToolCallStarted { name, arguments } => {
            if ui.verbose && i >= 2 {
                let rows = call_rows(name@, json_rows(arguments@), current_dir);
                assert(event_outputs(ui, event, width, current_dir)[i] == field_lines(rows)[i - 2]);
            }
        },
        AgentEvent::ToolCallCompleted { name, result } => {
            let rows = json_rows(result@);
            let skipped: int = if ui.approval_shown {
                0
            } else {
                1
            };
            if ui.verbose && skipped <= i < skipped + rows.len() {
                assert(event_outputs(ui, event, width, current_dir)[i] == field_lines(
                    rows,
                )[i - skipped]);
            }
        },
        _ => {},
    }
}

/// Whether a request is under way behind the given events.
pub open spec fn requesting(events: Seq<AgentEvent>) -> bool
    decreases events.len(),
{
    if events.len() == 0 {
        false
    } else {
        match events.last() {
            AgentEvent::RequestStarted => true,
            AgentEvent::RequestFinished => false,
            _ => requesting(events.drop_last()),
        }
    }
}

/// The spinner runs only while a request is under way.
pub proof fn a_spinner_runs_only_during_a_request(ui: TerminalAgentUi, events: Seq<AgentEvent>)
    requires
        !ui.spinning,
    ensures
        states(ui, events).spinning ==> requesting(events),
    decreases events.len(),
{
    if events.len() > 0 {
        a_spinner_runs_only_during_a_request(ui, events.drop_last());
    }
}

// ---------------------------------------------------------------------------
// Laws of what is printed
// ---------------------------------------------------------------------------

/// The characters that an output prints.
pub open spec fn printed(output: OutputView) -> Seq<char> {
    match output {
        OutputView::Text(spans) => ink(spans),
        OutputView::Line(spans) => ink(spans),
        _ => Seq::empty(),
    }
}

/// A line with a sign in front shows the sign, a space and the text, and an
/// empty line nothing.
pub proof fn a_signed_line_shows_its_text(sign: Seq<char>, tone: Tone, text: Seq<char>)
    ensures
        printed(signed(sign, tone, text)) == sign + " "@ + text,
        signed(sign, tone, text) is Line,
        gap() is Line && printed(gap()).len() == 0,
{
    let a = span_of(sign, tone);
    let b = span_of(" "@ + text, Tone::Plain);
    pieces_stand_one_behind_the_other(a, b, b);
    assert(sign + (" "@ + text) =~= sign + " "@ + text);
}

/// An error, and what steers a turn, are printed as they are, in every mode.
pub proof fn errors_and_steering_are_printed(
    ui: TerminalAgentUi,
    message: String,
    width: usize,
    current_dir: Option<Seq<char>>,
)
    ensures
        ({
            let told = event_outputs(ui, AgentEvent::Error { message }, width, current_dir);
            &&& told.len() == 2
            &&& printed(told[0]) == "\u{2717}"@ + " "@ + message@
            &&& printed(told[1]).len() == 0
        }),
        ({
            let told = event_outputs(ui, AgentEvent::Steered { text: message }, width, current_dir);
            &&& told.len() == 2
            &&& printed(told[1]) == "\u{276f}"@ + " "@ + message@
        }),
{
    a_signed_line_shows_its_text("\u{2717}"@, Tone::Red, message@);
    a_signed_line_shows_its_text("\u{276f}"@, Tone::GreenBold, message@);
}

/// A reply is printed once, when it is whole: its pieces print nothing, and a
/// reply of one line stands behind its sign as it is filled, or behind its label
/// where labels are shown.
pub proof fn a_reply_is_printed_when_it_is_whole(
    ui: TerminalAgentUi,
    model: String,
    effort_level: Option<String>,
    text: String,
    width: usize,
    current_dir: Option<Seq<char>>,
)
    requires
        !text@.contains('\n'),
    ensures
        event_outputs(ui, AgentEvent::AssistantDelta { text }, width, current_dir).len() == 0,
        ({
            let told = event_outputs(
                ui,
                AgentEvent::AssistantMessage { model, effort_level, text },
                width,
                current_dir,
            );
            &&& told.len() == 2
            &&& !ui.show_model_label ==> printed(told[0]) == "\u{25cf}"@ + " "@ + filled(
                text@,
                width,
            )
            &&& ui.show_model_label ==> printed(told[0]) == label_text(
                model@,
                opt_view(effort_level),
            ) + ":"@ + " "@ + filled(text@, width)
        }),
{
    crate::wrap::one_line_is_filled(text@, width, "\n"@);
    crate::wrap::one_line_is_filled(text@, width, "\n"@ + "  "@);
    a_signed_line_shows_its_text("\u{25cf}"@, Tone::Cyan, filled(text@, width));
    a_signed_line_shows_its_text(
        label_text(model@, opt_view(effort_level)) + ":"@,
        Tone::Cyan,
        filled(text@, width),
    );
}

/// Without details, what was thought, the rounds of a turn and its end print
/// nothing, and a call prints its name and what it acts on alone.
pub proof fn without_details_little_is_printed(
    ui: TerminalAgentUi,
    text: String,
    name: String,
    arguments: String,
    iteration: usize,
    width: usize,
    current_dir: Option<Seq<char>>,
)
    ensures
        !ui.verbose ==> {
            &&& event_outputs(ui, AgentEvent::Thinking { text }, width, current_dir).len() == 0
            &&& event_outputs(
                ui,
                AgentEvent::IterationStarted { iteration },
                width,
                current_dir,
            ).len() == 0
            &&& event_outputs(ui, AgentEvent::TurnFinished, width, current_dir).len() == 0
            &&& event_outputs(
                ui,
                AgentEvent::ToolCallStarted { name, arguments },
                width,
                current_dir,
            ).len() == 1
        },
        ({
            let told = event_outputs(
                ui,
                AgentEvent::ToolCallStarted { name, arguments },
                width,
                current_dir,
            );
            &&& told.len() > 0
            &&& primary_argument_text(arguments@) matches Some(detail) ==> printed(told[0])
                == "\u{1f528}"@ + " "@ + name@ + "  "@ + detail
            &&& primary_argument_text(arguments@) is None ==> printed(told[0]) == "\u{1f528}"@
                + " "@ + name@
            &&& ui.verbose ==> told.len() == 2 + call_rows(
                name@,
                json_rows(arguments@),
                current_dir,
            ).len()
        }),
{
    let a = span_of("\u{1f528}"@, Tone::Magenta);
    let b = span_of(" "@, Tone::Plain);
    let c = span_of(name@, Tone::Bold);
    pieces_stand_one_behind_the_other(a, b, c);
    match primary_argument_text(arguments@) {
        Some(detail) => {
            let d = span_of("  "@, Tone::Plain);
            let e = span_of(detail, Tone::DarkGray);
            pieces_stand_one_behind_the_other(d, e, e);
            rows_of_pieces_join(seq![a, b, c], seq![d, e]);
            assert("\u{1f528}"@ + " "@ + name@ + ("  "@ + detail) =~= "\u{1f528}"@ + " "@ + name@
                + "  "@ + detail);
        },
        None => {},
    }
}

/// With details every field of a call and of its result has a line, which shows
/// its name and its value.
pub proof fn with_details_every_field_has_a_line(rows: Seq<(Seq<char>, Seq<char>)>, i: int)
    requires
        0 <= i < rows.len(),
    ensures
        field_lines(rows).len() == rows.len(),
        printed(field_lines(rows)[i]) == "     "@ + rows[i].0 + "  "@ + rows[i].1,
{
    let a = span_of("     "@, Tone::Plain);
    let b = span_of(rows[i].0, Tone::DarkGray);
    let c = span_of("  "@ + rows[i].1, Tone::Plain);
    pieces_stand_one_behind_the_other(a, b, c);
    assert("     "@ + rows[i].0 + ("  "@ + rows[i].1) =~= "     "@ + rows[i].0 + "  "@ + rows[i].1);
}

/// Of a file's content in a question the first hundred characters stand there,
/// and how long it is; a shorter one, and any other argument, stands there as
/// it is.
pub proof fn a_question_shows_the_start_of_a_content(key: Seq<char>, value: Seq<char>)
    requires
        vstd::utf8::is_ascii_chars(value),
    ensures
        key != "content"@ ==> asked_value(key, value) == Some(value),
        value.len() <= 100 ==> asked_value(key, value) == Some(value),
        value.len() > 100 ==> asked_value("content"@, value) == Some(
            value.take(100) + "... ("@ + decimal(value.len()) + " chars)"@,
        ),
{
    crate::offsets::ascii_can_be_cut_anywhere(value, 100);
}

/// A question names the tool and shows every argument under its name, in its
/// order, and it ends with asking.
pub proof fn a_question_shows_every_argument(
    ui: TerminalAgentUi,
    request: ApprovalRequest,
    fields: Seq<(Seq<char>, JsonFieldView)>,
    i: int,
)
    requires
        0 <= i < fields.len(),
        can_ask(fields),
    ensures
        ({
            let asked = question(ui, request, fields);
            &&& asked.len() == fields.len() + 6
            &&& printed(asked[3]) == "  Tool: "@ + request.tool_name@
            &&& printed(asked[4 + i]) == "  "@ + fields[i].0 + ": "@ + asked_value(
                fields[i].0,
                shown_text(fields[i].1),
            )->0
            &&& asked.last() is Text
            &&& printed(asked.last()) == "Allow? [y/N]:"@ + " "@
        }),
{
    let a = span_of("  Tool: "@, Tone::Plain);
    let b = span_of(request.tool_name@, Tone::Cyan);
    pieces_stand_one_behind_the_other(a, b, b);
    let value = asked_value(fields[i].0, shown_text(fields[i].1))->0;
    let c = span_of("  "@ + fields[i].0 + ": "@, Tone::Plain);
    let d = span_of(value, Tone::DarkGray);
    pieces_stand_one_behind_the_other(c, d, d);
    let e = span_of("Allow? [y/N]:"@, Tone::Blue);
    let f = span_of(" "@, Tone::Plain);
    pieces_stand_one_behind_the_other(e, f, f);
    assert(question(ui, request, fields)[4 + i] == asked_lines(fields)[i]);
}

/// Whoever watches is told what is waited for, and only where someone does.
pub proof fn only_a_watched_session_reports(ui: TerminalAgentUi, request: ApprovalRequest)
    ensures
        !ui.watched ==> waiting_report(ui, request).len() == 0,
        ui.watched ==> waiting_report(ui, request).len() == 1 && (waiting_report(ui, request)[0]
            matches OutputView::Report { activity, detail } && activity
            == Activity::AwaitingApproval && detail == Some(
            approval_line(request.tool_name@, primary_argument_text(request.arguments@)),
        )),
{
}

/// A call that was carried out is ticked off, and with details its result is
/// shown field by field; what was thought, the rounds and the end of a turn are
/// printed with details, as they are.
pub proof fn what_happens_is_printed_as_it_is(
    ui: TerminalAgentUi,
    name: String,
    text: String,
    iteration: usize,
    width: usize,
    current_dir: Option<Seq<char>>,
)
    requires
        !text@.contains('\n'),
    ensures
        ({
            let told = event_outputs(
                ui,
                AgentEvent::ToolCallCompleted { name, result: text },
                width,
                current_dir,
            );
            &&& ui.pending_arguments is None ==> told.len() == 0
            &&& ui.pending_arguments is Some && !ui.approval_shown ==> told.len() > 0 && printed(
                told[0],
            ) == if ui.tool_header_open {
                " "@ + "\u{2713}"@
            } else {
                "  "@ + "\u{2713}"@
            }
            &&& ui.pending_arguments is Some && ui.verbose && ui.approval_shown ==> told
                == field_lines(json_rows(text@)).push(gap())
        }),
        ui.verbose && !ui.spinning ==> {
            let told = event_outputs(ui, AgentEvent::Thinking { text }, width, current_dir);
            &&& told.len() == 2
            &&& printed(told[0]) == "\u{1f4ad}"@ + " "@ + filled(text@, width)
        },
        ui.verbose ==> {
            let told = event_outputs(
                ui,
                AgentEvent::IterationStarted { iteration },
                width,
                current_dir,
            );
            &&& told.len() == 2
            &&& printed(told[1]) == "[Iteration "@ + decimal(iteration as nat) + "]"@
        },
        ui.verbose ==> {
            let told = event_outputs(ui, AgentEvent::TurnFinished, width, current_dir);
            &&& told.len() == 2
            &&& printed(told[0]) == "\u{2713} Agent finished"@
        },
{
    let open = span_of(
        if ui.tool_header_open {
            " "@
        } else {
            "  "@
        },
        Tone::Plain,
    );
    let tick = span_of("\u{2713}"@, Tone::Green);
    pieces_stand_one_behind_the_other(open, tick, tick);
    crate::wrap::one_line_is_filled(text@, width, "\n"@ + "   "@);
    let a = span_of("\u{1f4ad}"@, Tone::DarkGray);
    let b = span_of(" "@, Tone::Plain);
    let c = span_of(filled(text@, width), Tone::DarkGrayItalic);
    pieces_stand_one_behind_the_other(a, b, c);
    let round = span_of("[Iteration "@ + decimal(iteration as nat) + "]"@, Tone::DarkGray);
    pieces_stand_one_behind_the_other(round, round, round);
    let end = span_of("\u{2713} Agent finished"@, Tone::Green);
    pieces_stand_one_behind_the_other(end, end, end);
    let told = event_outputs(
        ui,
        AgentEvent::ToolCallCompleted { name, result: text },
        width,
        current_dir,
    );
    if ui.pending_arguments is Some && ui.verbose && ui.approval_shown {
        assert(told =~= field_lines(json_rows(text@)).push(gap()));
    }
}

/// Where nobody can be asked a call is refused, and the refusal names the tool.
pub proof fn a_refusal_without_a_terminal_names_the_tool(
    ui: TerminalAgentUi,
    request: ApprovalRequest,
)
    ensures
        refusal(ui, request).len() == 2,
        printed(refusal(ui, request)[1]) == "  "@ + "denied:"@ + " "@ + (request.tool_name@
            + " needs approval, and --headless cannot ask"@),
{
    let a = span_of("  "@, Tone::Plain);
    let b = span_of("denied:"@, Tone::Red);
    let c = span_of(" "@, Tone::Plain);
    let d = span_of(request.tool_name@, Tone::Cyan);
    let e = span_of(" needs approval, and --headless cannot ask"@, Tone::Plain);
    pieces_stand_one_behind_the_other(a, b, c);
    pieces_stand_one_behind_the_other(d, e, e);
    rows_of_pieces_join(seq![a, b, c], seq![d, e]);
    assert(seq![a, b, c, d, e] =~= seq![a, b, c] + seq![d, e]);
}

} // verus!
