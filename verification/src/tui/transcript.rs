//! The transcript of a conversation, block by block, and the boxes and bars
//! around it.

use vstd::prelude::*;
use vstd::string::*;

use crate::config::{ApprovalSettings, Temperature};
use crate::offsets::byte_width;
use crate::store::{mode_label, mode_text};
use crate::text::{
    chars_of, concat2, concat3, concat4, decimal, decimal_of, lines, lines_of, opt_view, repeat,
    repeat_char, same, string_of, string_views, trim, trim_chars, trim_end, trim_end_chars, views,
};
use crate::tui::app::{
    item_views, App, ItemView, ShellState, StatusView, ToolStatus, TranscriptItem,
};
use crate::tui::render::{
    block_rows, clip, clipped, field_blocks, highlight_rows, highlighted, home_relative,
    home_relative_text, identicon, mark_text, mark_tone, markdown_lines, markdown_rows, opt_span,
    render_block, rendered_rows, text_block, toned_lines, without_fences,
};
use crate::tui::rows::{
    append_rows, blank, blank_row, frame, frame_text, ink, line_views, one_span,
    pieces_stand_one_behind_the_other, plain_row, push_row, push_span, row_of, row_views,
    row_width, span, span_of, span_views, two_spans, Row, RowView, Span, SpanView, Tone,
};
use crate::ui::{
    call_rows, category_label, category_label_text, json_fields, json_rows, pair_views,
    primary_argument, primary_argument_text, summarize, summary_text, tool_call_fields,
    ApprovalRequest,
};

verus! {

/// What the look of a transcript depends on.
pub struct Look {
    /// The width of the pane.
    pub width: u16,
    pub verbose: bool,
    pub highlight: bool,
    pub session_id: String,
    /// Where the process is, if that is known.
    pub current_dir: Option<String>,
}

/// The look of a screen's transcript in a pane of a width.
pub fn look_of(app: &App, width: u16, current_dir: Option<String>) -> (r: Look)
    ensures
        r == (Look {
            width,
            verbose: app.verbose,
            highlight: app.highlight,
            session_id: app.session_id,
            current_dir,
        }),
{
    Look {
        width,
        verbose: app.verbose,
        highlight: app.highlight,
        session_id: app.session_id.clone(),
        current_dir,
    }
}

/// The width that texts are wrapped to: the pane's without the gutter.
pub open spec fn content_width(width: u16) -> usize {
    if width > 3 {
        (width - 2) as usize
    } else {
        1
    }
}

/// One column less, for a gutter of three columns.
pub open spec fn narrower(width: usize) -> usize {
    (width - 1) as usize
}

fn content_width_of(width: u16) -> (r: usize)
    ensures
        r == content_width(width),
        r >= 1,
{
    if width > 3 {
        (width - 2) as usize
    } else {
        1
    }
}

pub open spec fn user_rows(text: Seq<char>, k: Look) -> Seq<RowView> {
    highlighted(
        block_rows(
            span_of("\u{276f} "@, Tone::GreenBold),
            text,
            Seq::empty(),
            content_width(k.width),
        ),
        k.width as nat,
        k.highlight,
    ).push(blank_row())
}

fn user_block(text: &str, k: &Look) -> (r: Vec<Row>)
    ensures
        row_views(r@) == user_rows(text@, *k),
{
    let chars: Vec<char> = chars_of(text);
    let trailing: Option<Span> = None;
    let rows: Vec<Row> = text_block(
        &span("\u{276f} ", Tone::GreenBold),
        &chars,
        &trailing,
        content_width_of(k.width),
    );
    let mut out: Vec<Row> = highlight_rows(rows, k.width as usize, k.highlight);
    push_row(&mut out, blank());
    out
}

/// An integer in decimal, with its sign.
pub open spec fn signed_decimal(n: int) -> Seq<char> {
    if n < 0 {
        "-"@ + decimal((-n) as nat)
    } else {
        decimal(n as nat)
    }
}

fn signed_decimal_of(n: i32) -> (r: String)
    ensures
        r@ == signed_decimal(n as int),
{
    if n < 0 {
        let magnitude: i64 = -(n as i64);
        concat2("-", &decimal_of(magnitude as u64))
    } else {
        decimal_of(n as u64)
    }
}

/// What is said of a command's output: how the command ended, and whether the
/// output goes with the next message.
pub open spec fn shell_note(exit_code: i32, sent: bool) -> Seq<char> {
    let fate = if sent {
        "sent \u{2014} goes with your next message"@
    } else {
        "not sent"@
    };
    if exit_code == 0 {
        "  "@ + fate
    } else {
        "  exit "@ + signed_decimal(exit_code as int) + " \u{b7} "@ + fate
    }
}

fn shell_note_of(exit_code: i32, sent: bool) -> (r: String)
    ensures
        r@ == shell_note(exit_code, sent),
{
    let fate: &str = if sent {
        "sent \u{2014} goes with your next message"
    } else {
        "not sent"
    };
    if exit_code == 0 {
        concat2("  ", fate)
    } else {
        concat4("  exit ", &signed_decimal_of(exit_code), " \u{b7} ", fate)
    }
}

pub open spec fn shell_rows(
    command: Seq<char>,
    output: Seq<char>,
    exit_code: i32,
    sent: bool,
    k: Look,
) -> Seq<RowView> {
    let head = plain_row(
        seq![
            span_of("$ "@, Tone::GreenBold),
            span_of(command, Tone::Green),
            span_of(shell_note(exit_code, sent), Tone::DarkGrayItalic),
        ],
    );
    let body = if trim(output).len() > 0 {
        block_rows(
            span_of("  "@, Tone::Plain),
            trim_end(output),
            Seq::empty(),
            content_width(k.width),
        )
    } else {
        Seq::empty()
    };
    (seq![head] + body).push(blank_row())
}

fn shell_block(command: &str, output: &str, exit_code: i32, sent: bool, k: &Look) -> (r: Vec<Row>)
    ensures
        row_views(r@) == shell_rows(command@, output@, exit_code, sent, *k),
{
    let mut spans: Vec<Span> = two_spans(
        span("$ ", Tone::GreenBold),
        span(command, Tone::Green),
    );
    push_span(
        &mut spans,
        Span { content: shell_note_of(exit_code, sent), tone: Tone::DarkGrayItalic },
    );
    assert(span_views(spans@) =~= seq![
        span_of("$ "@, Tone::GreenBold),
        span_of(command@, Tone::Green),
        span_of(shell_note(exit_code, sent), Tone::DarkGrayItalic),
    ]);
    let mut out: Vec<Row> = Vec::new();
    push_row(&mut out, row_of(spans));
    let chars: Vec<char> = chars_of(output);
    let ghost head = row_views(out@);
    if trim_chars(&chars).len() > 0 {
        let trailing: Option<Span> = None;
        let body: Vec<Row> = text_block(
            &span("  ", Tone::Plain),
            trim_end_chars(&chars),
            &trailing,
            content_width_of(k.width),
        );
        append_rows(&mut out, body);
    }
    push_row(&mut out, blank());
    assert(row_views(out@) =~= shell_rows(command@, output@, exit_code, sent, *k));
    out
}

pub open spec fn assistant_rows(text: Seq<char>, streaming: bool, k: Look) -> Seq<RowView> {
    let prefix = span_of(mark_text(k.session_id@) + " "@, Tone::Indexed(mark_tone(k.session_id@)));
    let width = narrower(content_width(k.width));
    let rows = if streaming {
        block_rows(prefix, text, seq![span_of("\u{258c}"@, Tone::Cyan)], width)
    } else {
        rendered_rows(
            prefix,
            without_fences(markdown_rows(text), false),
            Seq::empty(),
            width,
            "   "@,
        )
    };
    rows.push(blank_row())
}

fn assistant_block(text: &str, streaming: bool, k: &Look) -> (r: Vec<Row>)
    ensures
        row_views(r@) == assistant_rows(text@, streaming, *k),
{
    let (mark, colour): (String, u8) = identicon(&k.session_id);
    let prefix: Span = Span { content: concat2(&mark, " "), tone: Tone::Indexed(colour) };
    let width: usize = content_width_of(k.width) - 1;
    let mut rows: Vec<Row> = if streaming {
        let chars: Vec<char> = chars_of(text);
        let trailing: Option<Span> = Some(span("\u{258c}", Tone::Cyan));
        text_block(&prefix, &chars, &trailing, width)
    } else {
        let rendered: Vec<Vec<Span>> = markdown_lines(text);
        let trailing: Option<Span> = None;
        render_block(&prefix, &rendered, &trailing, width, "   ")
    };
    push_row(&mut rows, blank());
    rows
}

/// The sign behind a tool call: none while it runs.
pub open spec fn status_mark(status: StatusView) -> Seq<SpanView> {
    match status {
        StatusView::AwaitingApproval => seq![span_of(" ?"@, Tone::Yellow)],
        StatusView::Running => Seq::empty(),
        StatusView::Denied => seq![span_of(" \u{2717}"@, Tone::Red)],
        StatusView::Done { .. } => seq![span_of(" \u{2713}"@, Tone::Green)],
    }
}

fn mark_of_status(status: &ToolStatus) -> (r: Option<Span>)
    ensures
        opt_span(r) == status_mark(status@),
{
    match status {
        ToolStatus::AwaitingApproval => Some(span(" ?", Tone::Yellow)),
        ToolStatus::Running => None,
        ToolStatus::Denied => Some(span(" \u{2717}", Tone::Red)),
        ToolStatus::Done { .. } => Some(span(" \u{2713}", Tone::Green)),
    }
}

/// A tool call on one line: its name, and what it acts on.
pub open spec fn call_line(name: Seq<char>, arguments: Seq<char>) -> Seq<SpanView> {
    match primary_argument_text(arguments) {
        Some(detail) => seq![
            span_of(name, Tone::Bold),
            span_of("  "@ + summary_text(detail, 60), Tone::DarkGray),
        ],
        None => seq![span_of(name, Tone::Bold)],
    }
}

fn call_header(name: &str, arguments: &str) -> (r: Vec<Span>)
    ensures
        span_views(r@) == call_line(name@, arguments@),
{
    let head: Span = span(name, Tone::Bold);
    match primary_argument(arguments) {
        Some(detail) => {
            let short: String = summarize(&detail, 60);
            two_spans(head, Span { content: concat2("  ", &short), tone: Tone::DarkGray })
        },
        None => one_span(head),
    }
}

/// What a verbose transcript adds to a call: its arguments, and its result
/// once it has one.
pub open spec fn call_details(
    name: Seq<char>,
    arguments: Seq<char>,
    status: StatusView,
    k: Look,
) -> Seq<RowView> {
    if k.verbose {
        field_blocks(
            call_rows(name, json_rows(arguments), opt_view(k.current_dir)),
            content_width(k.width),
        ) + match status {
            StatusView::Done { result } => field_blocks(
                json_rows(result),
                content_width(k.width),
            ),
            _ => Seq::empty(),
        }
    } else {
        Seq::empty()
    }
}

pub open spec fn tool_rows(
    name: Seq<char>,
    arguments: Seq<char>,
    status: StatusView,
    k: Look,
) -> Seq<RowView> {
    (rendered_rows(
        span_of("\u{1f528} "@, Tone::Magenta),
        seq![call_line(name, arguments)],
        status_mark(status),
        narrower(content_width(k.width)),
        "   "@,
    ) + call_details(name, arguments, status, k)).push(blank_row())
}

fn tool_block(name: &str, arguments: &str, status: &ToolStatus, k: &Look) -> (r: Vec<Row>)
    ensures
        row_views(r@) == tool_rows(name@, arguments@, status@, *k),
{
    let header: Vec<Span> = call_header(name, arguments);
    let mut rendered: Vec<Vec<Span>> = Vec::new();
    rendered.push(header);
    assert(line_views(rendered@) =~= seq![call_line(name@, arguments@)]);
    let width: usize = content_width_of(k.width);
    let mut out: Vec<Row> = render_block(
        &span("\u{1f528} ", Tone::Magenta),
        &rendered,
        &mark_of_status(status),
        width - 1,
        "   ",
    );
    let ghost head = row_views(out@);
    if k.verbose {
        let fields: Vec<(String, String)> = tool_call_fields(
            name,
            arguments,
            crate::text::clone_opt(&k.current_dir),
        );
        append_rows(&mut out, crate::tui::render::fields_block(&fields, width));
        match status {
            ToolStatus::Done { result } => {
                let results: Vec<(String, String)> = json_fields(result);
                append_rows(&mut out, crate::tui::render::fields_block(&results, width));
            },
            _ => {},
        }
    }
    assert(row_views(out@) =~= head + call_details(name@, arguments@, status@, *k));
    push_row(&mut out, blank());
    out
}

pub open spec fn thinking_rows(text: Seq<char>, k: Look) -> Seq<RowView> {
    if k.verbose {
        rendered_rows(
            span_of("\u{1f4ad} "@, Tone::DarkGray),
            toned_lines(lines(text), Tone::DarkGrayItalic),
            Seq::empty(),
            narrower(content_width(k.width)),
            "   "@,
        ).push(blank_row())
    } else {
        Seq::empty()
    }
}

fn thinking_block(text: &str, k: &Look) -> (r: Vec<Row>)
    ensures
        row_views(r@) == thinking_rows(text@, *k),
{
    let mut out: Vec<Row> = Vec::new();
    if k.verbose {
        let chars: Vec<char> = chars_of(text);
        let pieces: Vec<Vec<char>> = lines_of(&chars);
        let rendered: Vec<Vec<Span>> = crate::tui::render::tone_lines(
            &pieces,
            Tone::DarkGrayItalic,
        );
        let trailing: Option<Span> = None;
        out = render_block(
            &span("\u{1f4ad} ", Tone::DarkGray),
            &rendered,
            &trailing,
            content_width_of(k.width) - 1,
            "   ",
        );
        push_row(&mut out, blank());
    } else {
        assert(row_views(out@) =~= Seq::<RowView>::empty());
    }
    out
}

/// Two pieces on a row, and a blank row under it.
pub open spec fn message_rows(a: SpanView, b: SpanView) -> Seq<RowView> {
    seq![plain_row(seq![a, b]), blank_row()]
}

fn message_block(a: Span, b: Span) -> (r: Vec<Row>)
    ensures
        row_views(r@) == message_rows(a@, b@),
{
    let mut out: Vec<Row> = Vec::new();
    push_row(&mut out, row_of(two_spans(a, b)));
    push_row(&mut out, blank());
    assert(row_views(out@) =~= message_rows(a@, b@));
    out
}

/// The widest label of a table, in bytes.
pub open spec fn widest(rows: Seq<(Seq<char>, Seq<char>)>) -> nat
    decreases rows.len(),
{
    if rows.len() == 0 {
        0
    } else {
        let before = widest(rows.drop_last());
        let w = byte_width(rows.last().0);
        if w > before {
            w
        } else {
            before
        }
    }
}

/// A text with spaces behind it, up to a width.
pub open spec fn left_aligned(s: Seq<char>, width: nat) -> Seq<char> {
    if s.len() < width {
        s + repeat(' ', (width - s.len()) as nat)
    } else {
        s
    }
}

/// A text with spaces behind it, up to a width.
pub fn align_left(text: &str, width: usize) -> (r: String)
    ensures
        r@ == left_aligned(text@, width as nat),
{
    let n: usize = chars_of(text).len();
    if n < width {
        concat2(text, &repeat_char(' ', width - n))
    } else {
        String::from_str(text)
    }
}

/// The rows of a table of settings.
pub open spec fn table_rows(rows: Seq<(Seq<char>, Seq<char>)>, width: nat) -> Seq<RowView> {
    rows.map_values(
        |row: (Seq<char>, Seq<char>)|
            plain_row(
                seq![
                    span_of(
                        "      "@ + left_aligned(row.0, width) + "  "@,
                        Tone::DarkGray,
                    ),
                    span_of(row.1, Tone::Plain),
                ],
            ),
    )
}

pub open spec fn status_rows(rows: Seq<(Seq<char>, Seq<char>)>) -> Seq<RowView> {
    (seq![
        plain_row(
            seq![
                span_of("\u{2014} "@, Tone::DarkGrayItalic),
                span_of("Session:"@, Tone::DarkGrayItalic),
            ],
        ),
    ] + table_rows(rows, widest(rows))).push(blank_row())
}

/// The widest label of a table, in bytes.
pub fn label_width(rows: &Vec<(String, String)>) -> (r: usize)
    ensures
        r == widest(pair_views(rows@)),
{
    let ghost all = pair_views(rows@);
    let mut width: usize = 0;
    let mut i: usize = 0;
    assert(widest(all.take(0)) == 0);
    while i < rows.len()
        invariant
            i <= rows@.len(),
            all == pair_views(rows@),
            width == widest(all.take(i as int)),
        decreases rows@.len() - i,
    {
        let bytes: usize = rows[i].0.as_str().as_bytes().len();
        proof {
            crate::offsets::the_width_is_the_encoded_length(rows@[i as int].0@);
        }
        assert(all.take(i + 1).drop_last() =~= all.take(i as int));
        assert(all.take(i + 1).last().0 == rows@[i as int].0@);
        if bytes > width {
            width = bytes;
        }
        i = i + 1;
    }
    assert(all.take(i as int) =~= all);
    width
}

fn status_block(rows: &Vec<(String, String)>) -> (r: Vec<Row>)
    ensures
        row_views(r@) == status_rows(pair_views(rows@)),
{
    let width: usize = label_width(rows);
    let ghost all = pair_views(rows@);
    let ghost table = table_rows(all, width as nat);
    let mut out: Vec<Row> = Vec::new();
    push_row(
        &mut out,
        row_of(
            two_spans(
                span("\u{2014} ", Tone::DarkGrayItalic),
                span("Session:", Tone::DarkGrayItalic),
            ),
        ),
    );
    let ghost head = row_views(out@);
    let mut i: usize = 0;
    assert(row_views(out@) =~= head + table.take(0));
    while i < rows.len()
        invariant
            i <= rows@.len(),
            all == pair_views(rows@),
            table == table_rows(all, width as nat),
            row_views(out@) == head + table.take(i as int),
        decreases rows@.len() - i,
    {
        let label: String = concat3("      ", &align_left(&rows[i].0, width), "  ");
        push_row(
            &mut out,
            row_of(
                two_spans(
                    Span { content: label, tone: Tone::DarkGray },
                    span(&rows[i].1, Tone::Plain),
                ),
            ),
        );
        assert(all[i as int] == (rows@[i as int].0@, rows@[i as int].1@));
        assert(row_views(out@) =~= head + table.take(i + 1));
        i = i + 1;
    }
    assert(table.take(i as int) =~= table);
    push_row(&mut out, blank());
    assert(row_views(out@) =~= status_rows(pair_views(rows@)));
    out
}

/// The row of one approval switch.
pub open spec fn gate_row(label: Seq<char>, enabled: bool) -> RowView {
    plain_row(
        seq![
            span_of("      "@ + label, Tone::DarkGray),
            if enabled {
                span_of("\u{2713} Ask"@, Tone::Green)
            } else {
                span_of("\u{2717} Auto"@, Tone::Yellow)
            },
        ],
    )
}

fn gate_line(label: &str, enabled: bool) -> (r: Row)
    ensures
        r@ == gate_row(label@, enabled),
{
    let value: Span = if enabled {
        span("\u{2713} Ask", Tone::Green)
    } else {
        span("\u{2717} Auto", Tone::Yellow)
    };
    row_of(two_spans(Span { content: concat2("      ", label), tone: Tone::DarkGray }, value))
}

pub open spec fn approval_status_rows(approval: ApprovalSettings, changed: bool) -> Seq<RowView> {
    seq![
        plain_row(
            seq![
                span_of("\u{2014} "@, Tone::DarkGrayItalic),
                span_of(
                    if changed {
                        "Approval set to:"@
                    } else {
                        "Approval is:"@
                    },
                    Tone::DarkGrayItalic,
                ),
            ],
        ),
        gate_row("Read from disk:    "@, approval.read_disk),
        gate_row("Write to disk:     "@, approval.write_disk),
        gate_row("Terminal commands: "@, approval.terminal),
        blank_row(),
    ]
}

fn approval_status_block(approval: &ApprovalSettings, changed: bool) -> (r: Vec<Row>)
    ensures
        row_views(r@) == approval_status_rows(*approval, changed),
{
    let mut out: Vec<Row> = Vec::new();
    push_row(
        &mut out,
        row_of(
            two_spans(
                span("\u{2014} ", Tone::DarkGrayItalic),
                span(
                    if changed {
                        "Approval set to:"
                    } else {
                        "Approval is:"
                    },
                    Tone::DarkGrayItalic,
                ),
            ),
        ),
    );
    push_row(&mut out, gate_line("Read from disk:    ", approval.read_disk));
    push_row(&mut out, gate_line("Write to disk:     ", approval.write_disk));
    push_row(&mut out, gate_line("Terminal commands: ", approval.terminal));
    push_row(&mut out, blank());
    assert(row_views(out@) =~= approval_status_rows(*approval, changed));
    out
}

/// The rows of one block, with the blank row under it.
pub open spec fn item_rows(item: ItemView, k: Look) -> Seq<RowView> {
    match item {
        ItemView::User(text) => user_rows(text, k),
        ItemView::Shell { command, output, exit_code, sent } => shell_rows(
            command,
            output,
            exit_code,
            sent,
            k,
        ),
        ItemView::Assistant { text, streaming, .. } => assistant_rows(text, streaming, k),
        ItemView::ToolCall { name, arguments, status } => tool_rows(name, arguments, status, k),
        ItemView::Thinking(text) => thinking_rows(text, k),
        ItemView::Error(message) => message_rows(
            span_of("\u{2717} "@, Tone::RedBold),
            span_of(message, Tone::Red),
        ),
        ItemView::Notice(message) => message_rows(
            span_of("\u{2014} "@, Tone::DarkGrayItalic),
            span_of(message, Tone::DarkGrayItalic),
        ),
        ItemView::SessionStatus(rows) => status_rows(rows),
        ItemView::ApprovalStatus { approval, changed } => approval_status_rows(approval, changed),
    }
}

fn item_block(item: &TranscriptItem, k: &Look) -> (r: Vec<Row>)
    ensures
        row_views(r@) == item_rows(item@, *k),
{
    match item {
        TranscriptItem::User(text) => user_block(text, k),
        TranscriptItem::Shell { command, output, exit_code, sent } => shell_block(
            command,
            output,
            *exit_code,
            *sent,
            k,
        ),
        TranscriptItem::Assistant { text, streaming, .. } => assistant_block(text, *streaming, k),
        TranscriptItem::ToolCall { name, arguments, status } => tool_block(
            name,
            arguments,
            status,
            k,
        ),
        TranscriptItem::Thinking(text) => thinking_block(text, k),
        TranscriptItem::Error(message) => message_block(
            span("\u{2717} ", Tone::RedBold),
            span(message, Tone::Red),
        ),
        TranscriptItem::Notice(message) => message_block(
            span("\u{2014} ", Tone::DarkGrayItalic),
            span(message, Tone::DarkGrayItalic),
        ),
        TranscriptItem::SessionStatus(rows) => status_block(rows),
        TranscriptItem::ApprovalStatus { approval, changed } => approval_status_block(
            approval,
            *changed,
        ),
    }
}

/// The rows of all blocks, one behind the other.
pub open spec fn blocks_rows(items: Seq<ItemView>, k: Look) -> Seq<RowView>
    decreases items.len(),
{
    if items.len() == 0 {
        Seq::empty()
    } else {
        blocks_rows(items.drop_last(), k) + item_rows(items.last(), k)
    }
}

/// Whether nothing stands on a row.
pub open spec fn is_blank(row: RowView) -> bool {
    forall|i: int| 0 <= i < row.spans.len() ==> (#[trigger] row.spans[i]).content.len() == 0
}

/// Rows without the blank ones at their end.
pub open spec fn without_blank_end(rows: Seq<RowView>) -> Seq<RowView>
    decreases rows.len(),
{
    if rows.len() > 0 && is_blank(rows.last()) {
        without_blank_end(rows.drop_last())
    } else {
        rows
    }
}

fn row_is_blank(row: &Row) -> (r: bool)
    ensures
        r == is_blank(row@),
{
    let mut i: usize = 0;
    while i < row.spans.len()
        invariant
            i <= row.spans@.len(),
            forall|j: int| 0 <= j < i ==> (#[trigger] row@.spans[j]).content.len() == 0,
        decreases row.spans@.len() - i,
    {
        assert(row@.spans[i as int].content == row.spans@[i as int].content@);
        if !row.spans[i].content.as_str().is_empty() {
            return false;
        }
        i = i + 1;
    }
    true
}

/// The rows of a transcript, so that its newest block stands flush with the
/// end.
pub fn transcript_rows(transcript: &Vec<TranscriptItem>, k: &Look) -> (r: Vec<Row>)
    ensures
        row_views(r@) == without_blank_end(blocks_rows(item_views(transcript@), *k)),
{
    let mut rows: Vec<Row> = Vec::new();
    let ghost all = item_views(transcript@);
    let mut i: usize = 0;
    assert(row_views(rows@) =~= blocks_rows(all.take(0), *k));
    while i < transcript.len()
        invariant
            i <= transcript@.len(),
            all == item_views(transcript@),
            row_views(rows@) == blocks_rows(all.take(i as int), *k),
        decreases transcript@.len() - i,
    {
        append_rows(&mut rows, item_block(&transcript[i], k));
        assert(all.take(i + 1).drop_last() =~= all.take(i as int));
        assert(all.take(i + 1).last() == transcript@[i as int]@);
        i = i + 1;
    }
    assert(all.take(i as int) =~= all);
    let ghost whole = row_views(rows@);
    let mut n: usize = rows.len();
    assert(whole.take(n as int) =~= whole);
    while n > 0 && row_is_blank(&rows[n - 1])
        invariant
            n <= rows@.len(),
            whole == row_views(rows@),
            without_blank_end(whole) == without_blank_end(whole.take(n as int)),
        decreases n,
    {
        assert(whole.take(n as int).drop_last() =~= whole.take(n - 1));
        assert(whole.take(n as int).last() == rows@[n - 1]@);
        n = n - 1;
    }
    if n > 0 {
        assert(whole.take(n as int).last() == rows@[n - 1]@);
    }
    rows.truncate(n);
    assert(row_views(rows@) =~= whole.take(n as int));
    rows
}

/// What the model thought is shown only where the transcript is verbose, and
/// so are a call's arguments and result.
pub proof fn a_quiet_transcript_hides_the_details(
    text: Seq<char>,
    name: Seq<char>,
    arguments: Seq<char>,
    status: StatusView,
    k: Look,
)
    requires
        !k.verbose,
    ensures
        item_rows(ItemView::Thinking(text), k) == Seq::<RowView>::empty(),
        call_details(name, arguments, status, k) == Seq::<RowView>::empty(),
{
}

/// A transcript never ends with a blank row.
pub proof fn a_transcript_ends_with_something_shown(rows: Seq<RowView>)
    ensures
        without_blank_end(rows).len() > 0 ==> !is_blank(without_blank_end(rows).last()),
        without_blank_end(rows).len() <= rows.len(),
        without_blank_end(rows) == rows.take(without_blank_end(rows).len() as int),
    decreases rows.len(),
{
    if rows.len() > 0 && is_blank(rows.last()) {
        a_transcript_ends_with_something_shown(rows.drop_last());
        let n = without_blank_end(rows).len() as int;
        assert(rows.drop_last().take(n) =~= rows.take(n));
    } else {
        assert(rows.take(rows.len() as int) =~= rows);
    }
}

// ---------------------------------------------------------------------------
// Boxes and bars
// ---------------------------------------------------------------------------

/// The title and the rows of the box of a command.
pub open spec fn shell_box(shell: ShellState, tick: int) -> (Seq<char>, Seq<RowView>) {
    match shell {
        ShellState::Running { command } => (
            Seq::empty(),
            seq![
                plain_row(
                    seq![
                        span_of("$ "@, Tone::GreenBold),
                        span_of(command@, Tone::Green),
                        span_of(" "@ + frame_text(tick), Tone::Green),
                    ],
                ),
            ],
        ),
        ShellState::Finished { command, output, exit_code } => (
            " Ctrl-S send with next message \u{b7} Ctrl-D discard "@,
            seq![
                plain_row(
                    seq![span_of("$ "@, Tone::GreenBold), span_of(command@, Tone::Green)]
                        + if exit_code == 0 {
                        Seq::empty()
                    } else {
                        seq![span_of("  exit "@ + signed_decimal(exit_code as int), Tone::Red)]
                    },
                ),
            ] + if trim_end(output@).len() == 0 {
                seq![plain_row(seq![span_of("(no output)"@, Tone::DarkGrayItalic)])]
            } else {
                output_rows(lines(trim_end(output@)))
            },
        ),
    }
}

/// The rows of a command's output.
pub open spec fn output_rows(pieces: Seq<Seq<char>>) -> Seq<RowView> {
    pieces.map_values(|p: Seq<char>| plain_row(seq![span_of(p, Tone::Plain)]))
}

pub(crate) fn output_lines(text: &[char]) -> (r: Vec<Row>)
    ensures
        row_views(r@) == output_rows(lines(text@)),
{
    let pieces: Vec<Vec<char>> = lines_of(text);
    let ghost all = views(pieces@);
    let ghost target = output_rows(all);
    let mut out: Vec<Row> = Vec::new();
    let mut i: usize = 0;
    assert(row_views(out@) =~= target.take(0));
    while i < pieces.len()
        invariant
            i <= pieces@.len(),
            all == views(pieces@),
            target == output_rows(all),
            row_views(out@) == target.take(i as int),
        decreases pieces@.len() - i,
    {
        push_row(
            &mut out,
            row_of(one_span(Span { content: string_of(&pieces[i]), tone: Tone::Plain })),
        );
        assert(all[i as int] == pieces@[i as int]@);
        assert(row_views(out@) =~= target.take(i + 1));
        i = i + 1;
    }
    assert(target.take(i as int) =~= target);
    out
}

/// The title and the rows of the box of a command: the keys that decide what
/// becomes of its output are offered only once there is some.
pub fn shell_lines(shell: &ShellState, tick: usize) -> (r: (String, Vec<Row>))
    ensures
        r.0@ == shell_box(*shell, tick as int).0,
        row_views(r.1@) == shell_box(*shell, tick as int).1,
{
    let mut out: Vec<Row> = Vec::new();
    match shell {
        ShellState::Running { command } => {
            let mut spans: Vec<Span> = two_spans(
                span("$ ", Tone::GreenBold),
                span(command, Tone::Green),
            );
            push_span(
                &mut spans,
                Span { content: concat2(" ", frame(tick)), tone: Tone::Green },
            );
            assert(span_views(spans@) =~= seq![
                span_of("$ "@, Tone::GreenBold),
                span_of(command@, Tone::Green),
                span_of(" "@ + frame_text(tick as int), Tone::Green),
            ]);
            push_row(&mut out, row_of(spans));
            assert(row_views(out@) =~= shell_box(*shell, tick as int).1);
            (String::new(), out)
        },
        ShellState::Finished { command, output, exit_code } => {
            let mut spans: Vec<Span> = two_spans(
                span("$ ", Tone::GreenBold),
                span(command, Tone::Green),
            );
            let ghost head = span_views(spans@);
            if *exit_code != 0 {
                push_span(
                    &mut spans,
                    Span {
                        content: concat2("  exit ", &signed_decimal_of(*exit_code)),
                        tone: Tone::Red,
                    },
                );
            }
            assert(span_views(spans@) =~= head + if *exit_code == 0 {
                Seq::empty()
            } else {
                seq![span_of("  exit "@ + signed_decimal(*exit_code as int), Tone::Red)]
            });
            push_row(&mut out, row_of(spans));
            let ghost first = row_views(out@);
            let chars: Vec<char> = chars_of(output);
            let text: &[char] = trim_end_chars(&chars);
            if text.len() == 0 {
                push_row(&mut out, row_of(one_span(span("(no output)", Tone::DarkGrayItalic))));
            } else {
                append_rows(&mut out, output_lines(text));
            }
            assert(row_views(out@) =~= shell_box(*shell, tick as int).1);
            (
                String::from_str(" Ctrl-S send with next message \u{b7} Ctrl-D discard "),
                out,
            )
        },
    }
}

/// Where waiting messages are headed.
pub fn pending_title(agentic: bool) -> (r: &'static str)
    ensures
        r@ == if agentic {
            " joining this turn "@
        } else {
            " next turn "@
        },
{
    if agentic {
        " joining this turn "
    } else {
        " next turn "
    }
}

/// The rows of the box of waiting messages: the first five, each on one row,
/// and how many more there are.
pub open spec fn pending_box(pending: Seq<Seq<char>>, width: nat) -> Seq<RowView> {
    let shown = if pending.len() > 5 {
        pending.take(5)
    } else {
        pending
    };
    let listed = shown.map_values(
        |text: Seq<char>| plain_row(seq![span_of(clipped(text, width), Tone::DarkGray)]),
    );
    if pending.len() > 5 {
        listed.push(
            plain_row(
                seq![
                    span_of(
                        "+"@ + decimal((pending.len() - 5) as nat) + " more"@,
                        Tone::DarkGrayItalic,
                    ),
                ],
            ),
        )
    } else {
        listed
    }
}

/// The rows of the box of waiting messages.
pub fn pending_lines(pending: &Vec<String>, width: usize) -> (r: Vec<Row>)
    ensures
        row_views(r@) == pending_box(string_views(pending@), width as nat),
{
    let ghost all = string_views(pending@);
    let count: usize = if pending.len() > 5 {
        5
    } else {
        pending.len()
    };
    let ghost listed = all.take(count as int).map_values(
        |text: Seq<char>|
            plain_row(seq![span_of(clipped(text, width as nat), Tone::DarkGray)]),
    );
    let mut out: Vec<Row> = Vec::new();
    let mut i: usize = 0;
    assert(row_views(out@) =~= listed.take(0));
    while i < count
        invariant
            i <= count <= pending@.len(),
            all == string_views(pending@),
            listed == all.take(count as int).map_values(
                |text: Seq<char>|
                    plain_row(seq![span_of(clipped(text, width as nat), Tone::DarkGray)]),
            ),
            row_views(out@) == listed.take(i as int),
        decreases count - i,
    {
        push_row(
            &mut out,
            row_of(one_span(Span { content: clip(&pending[i], width), tone: Tone::DarkGray })),
        );
        assert(all.take(count as int)[i as int] == pending@[i as int]@);
        assert(listed.take(i + 1) =~= listed.take(i as int).push(listed[i as int]));
        i = i + 1;
    }
    assert(listed.take(i as int) =~= listed);
    assert(pending@.len() <= 5 ==> all.take(count as int) =~= all);
    if pending.len() > 5 {
        let more: String = concat3("+", &decimal_of((pending.len() - 5) as u64), " more");
        push_row(&mut out, row_of(one_span(Span { content: more, tone: Tone::DarkGrayItalic })));
    }
    out
}

/// The session's title, with the directory that it runs in beside it.
pub open spec fn title_spans(
    title: Seq<char>,
    dir: Option<Seq<char>>,
    home: Option<Seq<char>>,
) -> Seq<SpanView> {
    match dir {
        Some(d) => seq![
            span_of(title, Tone::Bold),
            span_of("  "@ + home_relative_text(d, home), Tone::DarkGray),
        ],
        None => seq![span_of(title, Tone::Bold)],
    }
}

/// The session's title, with the directory that it runs in beside it.
pub fn title_line(title: &str, dir: &Option<String>, home: &Option<String>) -> (r: Vec<Span>)
    ensures
        span_views(r@) == title_spans(title@, opt_view(*dir), opt_view(*home)),
{
    let head: Span = span(title, Tone::Bold);
    match dir {
        Some(d) => two_spans(
            head,
            Span { content: concat2("  ", &home_relative(d, home)), tone: Tone::DarkGray },
        ),
        None => one_span(head),
    }
}

/// How an effort level looks: from calm to intense.
pub open spec fn effort_tone(effort_level: Option<Seq<char>>) -> Tone {
    match effort_level {
        Some(level) => if level == "low"@ {
            Tone::Cyan
        } else if level == "medium"@ {
            Tone::Yellow
        } else if level == "high"@ {
            Tone::Red
        } else {
            Tone::DarkGray
        },
        None => Tone::DarkGray,
    }
}

/// How an effort level looks.
pub fn effort_style(effort_level: &Option<String>) -> (r: Tone)
    ensures
        r == effort_tone(opt_view(*effort_level)),
{
    match effort_level {
        Some(level) => if same(level, "low") {
            Tone::Cyan
        } else if same(level, "medium") {
            Tone::Yellow
        } else if same(level, "high") {
            Tone::Red
        } else {
            Tone::DarkGray
        },
        None => Tone::DarkGray,
    }
}

/// How a temperature looks: from cool, below a half, over warm, below one, and
/// hot, below one and a half, to hottest.
pub open spec fn temperature_tone(temperature: Option<Temperature>) -> Tone {
    match temperature {
        None => Tone::DarkGray,
        Some(t) => if t.below(0x3F00_0000) {
            Tone::Cyan
        } else if t.below(0x3F80_0000) {
            Tone::Yellow
        } else if t.below(0x3FC0_0000) {
            Tone::Orange
        } else {
            Tone::Red
        },
    }
}

/// How a temperature looks.
pub fn temperature_style(temperature: &Option<Temperature>) -> (r: Tone)
    ensures
        r == temperature_tone(*temperature),
{
    match temperature {
        None => Tone::DarkGray,
        Some(t) => if t.is_below(0x3F00_0000) {
            Tone::Cyan
        } else if t.is_below(0x3F80_0000) {
            Tone::Yellow
        } else if t.is_below(0x3FC0_0000) {
            Tone::Orange
        } else {
            Tone::Red
        },
    }
}

/// The row of settings under the input.
pub open spec fn settings_spans(
    app: App,
    temperature_text: Option<Seq<char>>,
    tick: int,
) -> Seq<SpanView> {
    seq![
        if app.busy {
            span_of(" "@ + frame_text(tick) + " working "@, Tone::Yellow)
        } else {
            span_of(" ready "@, Tone::Green)
        },
        span_of("\u{b7} "@ + app.model@ + " "@, Tone::DarkGray),
        span_of(
            "\u{b7} "@ + mode_text(app.agentic) + " "@,
            if app.agentic {
                Tone::Yellow
            } else {
                Tone::Cyan
            },
        ),
        span_of(
            "\u{b7} \u{1f9e0} "@ + (match app.effort_level {
                Some(level) => level@,
                None => "default"@,
            }) + " "@,
            effort_tone(opt_view(app.effort_level)),
        ),
        span_of(
            "\u{b7} \u{1f321} "@ + (match temperature_text {
                Some(t) => t,
                None => "default"@,
            }) + " "@,
            temperature_tone(app.temperature),
        ),
        span_of(
            "\u{b7} "@ + (if app.verbose {
                "verbose"@
            } else {
                "quiet"@
            }) + " "@,
            if app.verbose {
                Tone::Yellow
            } else {
                Tone::DarkGray
            },
        ),
    ]
}

/// The row of settings under the input. `temperature_text` is the temperature
/// as it is shown.
pub fn settings_line(app: &App, temperature_text: &Option<String>, tick: usize) -> (r: Vec<Span>)
    ensures
        span_views(r@) == settings_spans(*app, opt_view(*temperature_text), tick as int),
{
    let mut spans: Vec<Span> = Vec::new();
    if app.busy {
        push_span(
            &mut spans,
            Span { content: concat3(" ", frame(tick), " working "), tone: Tone::Yellow },
        );
    } else {
        push_span(&mut spans, span(" ready ", Tone::Green));
    }
    push_span(
        &mut spans,
        Span { content: concat3("\u{b7} ", &app.model, " "), tone: Tone::DarkGray },
    );
    push_span(
        &mut spans,
        Span {
            content: concat3("\u{b7} ", mode_label(app.agentic), " "),
            tone: if app.agentic {
                Tone::Yellow
            } else {
                Tone::Cyan
            },
        },
    );
    let effort: &str = match &app.effort_level {
        Some(level) => level.as_str(),
        None => "default",
    };
    push_span(
        &mut spans,
        Span {
            content: concat3("\u{b7} \u{1f9e0} ", effort, " "),
            tone: effort_style(&app.effort_level),
        },
    );
    let temperature: &str = match temperature_text {
        Some(t) => t.as_str(),
        None => "default",
    };
    push_span(
        &mut spans,
        Span {
            content: concat3("\u{b7} \u{1f321} ", temperature, " "),
            tone: temperature_style(&app.temperature),
        },
    );
    push_span(
        &mut spans,
        Span {
            content: concat3(
                "\u{b7} ",
                if app.verbose {
                    "verbose"
                } else {
                    "quiet"
                },
                " ",
            ),
            tone: if app.verbose {
                Tone::Yellow
            } else {
                Tone::DarkGray
            },
        },
    );
    assert(span_views(spans@) =~= settings_spans(*app, opt_view(*temperature_text), tick as int));
    spans
}

/// The keys that do something now.
pub fn keybindings(app: &App) -> (r: &'static str)
    ensures
        r@ == if app.pending_approval is Some {
            " Ctrl-Y allow \u{b7} Ctrl-N deny \u{b7} Enter send \u{b7} Esc cancel \u{b7} Ctrl-B back \u{b7} Ctrl-C quit"@
        } else if app.pending_shell matches Some(ShellState::Finished { .. }) {
            " Ctrl-S send with next message \u{b7} Ctrl-D discard \u{b7} Ctrl-B back \u{b7} Ctrl-C quit"@
        } else {
            " Enter send \u{b7} Esc cancel \u{b7} PgUp/PgDn scroll \u{b7} Ctrl-B back \u{b7} Ctrl-C quit"@
        },
{
    if app.pending_approval.is_some() {
        return " Ctrl-Y allow \u{b7} Ctrl-N deny \u{b7} Enter send \u{b7} Esc cancel \u{b7} Ctrl-B back \u{b7} Ctrl-C quit";
    }
    match &app.pending_shell {
        Some(ShellState::Finished { .. }) =>
            " Ctrl-S send with next message \u{b7} Ctrl-D discard \u{b7} Ctrl-B back \u{b7} Ctrl-C quit",
        _ =>
            " Enter send \u{b7} Esc cancel \u{b7} PgUp/PgDn scroll \u{b7} Ctrl-B back \u{b7} Ctrl-C quit",
    }
}

/// The title of the box that asks about a call, with the keys that answer it.
pub fn approval_title(category: &str) -> (r: String)
    ensures
        r@ == " "@ + category_label_text(category@)
            + " \u{2014} Ctrl-Y allow \u{b7} Ctrl-N deny "@,
{
    concat3(
        " ",
        category_label(category),
        " \u{2014} Ctrl-Y allow \u{b7} Ctrl-N deny ",
    )
}

/// The rows of the box that asks about a call: the tool, and its arguments
/// field by field.
pub open spec fn approval_box(tool_name: Seq<char>, fields: Seq<(Seq<char>, Seq<char>)>) -> Seq<
    RowView,
> {
    seq![
        plain_row(
            seq![span_of("tool  "@, Tone::DarkGray), span_of(tool_name, Tone::Bold)],
        ),
    ] + fields.map_values(
        |f: (Seq<char>, Seq<char>)|
            plain_row(
                seq![span_of(f.0 + "  "@, Tone::DarkGray), span_of(f.1, Tone::Plain)],
            ),
    )
}

/// The rows of the box that asks about a call.
pub fn approval_lines(request: &ApprovalRequest) -> (r: Vec<Row>)
    ensures
        row_views(r@) == approval_box(request.tool_name@, json_rows(request.arguments@)),
{
    let fields: Vec<(String, String)> = json_fields(&request.arguments);
    let ghost all = pair_views(fields@);
    let ghost body = all.map_values(
        |f: (Seq<char>, Seq<char>)|
            plain_row(
                seq![span_of(f.0 + "  "@, Tone::DarkGray), span_of(f.1, Tone::Plain)],
            ),
    );
    let mut out: Vec<Row> = Vec::new();
    push_row(
        &mut out,
        row_of(
            two_spans(
                span("tool  ", Tone::DarkGray),
                span(&request.tool_name, Tone::Bold),
            ),
        ),
    );
    let ghost head = row_views(out@);
    let mut i: usize = 0;
    assert(row_views(out@) =~= head + body.take(0));
    while i < fields.len()
        invariant
            i <= fields@.len(),
            all == pair_views(fields@),
            body == all.map_values(
                |f: (Seq<char>, Seq<char>)|
                    plain_row(
                        seq![span_of(f.0 + "  "@, Tone::DarkGray), span_of(f.1, Tone::Plain)],
                    ),
            ),
            row_views(out@) == head + body.take(i as int),
        decreases fields@.len() - i,
    {
        push_row(
            &mut out,
            row_of(
                two_spans(
                    Span { content: concat2(&fields[i].0, "  "), tone: Tone::DarkGray },
                    span(&fields[i].1, Tone::Plain),
                ),
            ),
        );
        assert(all[i as int] == (fields@[i as int].0@, fields@[i as int].1@));
        assert(row_views(out@) =~= head + body.take(i + 1));
        i = i + 1;
    }
    assert(body.take(i as int) =~= body);
    assert(row_views(out@) =~= approval_box(request.tool_name@, json_rows(request.arguments@)));
    out
}

/// One channel of a colour a step lighter or darker, within its range.
pub open spec fn shifted(channel: u8, lighter: bool) -> u8 {
    if lighter {
        if channel > 241 {
            255
        } else {
            (channel + 14) as u8
        }
    } else if channel < 14 {
        0
    } else {
        (channel - 14) as u8
    }
}

fn shift(channel: u8, lighter: bool) -> (r: u8)
    ensures
        r == shifted(channel, lighter),
{
    if lighter {
        if channel > 241 {
            255
        } else {
            channel + 14
        }
    } else if channel < 14 {
        0
    } else {
        channel - 14
    }
}

/// The tint of the band: the terminal's own background, a step lighter where
/// that is dark and a step darker where it is light.
pub fn band_for(dark: bool, background: (u8, u8, u8)) -> (r: (u8, u8, u8))
    ensures
        r == (
            shifted(background.0, dark),
            shifted(background.1, dark),
            shifted(background.2, dark),
        ),
{
    (shift(background.0, dark), shift(background.1, dark), shift(background.2, dark))
}

/// The high eight bits of a sixteen-bit channel.
pub fn scale(channel: u16) -> (r: u8)
    ensures
        r == channel / 256,
{
    (channel / 256) as u8
}

// ---------------------------------------------------------------------------
// Laws of the transcript
// ---------------------------------------------------------------------------

/// The blocks of a transcript are shown one behind the other.
pub proof fn blocks_are_shown_one_behind_the_other(
    items: Seq<ItemView>,
    item: ItemView,
    k: Look,
)
    ensures
        blocks_rows(Seq::empty(), k).len() == 0,
        blocks_rows(items.push(item), k) == blocks_rows(items, k) + item_rows(item, k),
{
    assert(items.push(item).drop_last() =~= items);
}

/// An error and a notice are shown as they are, behind their sign, with a blank
/// row behind them.
pub proof fn messages_are_shown_behind_their_sign(text: Seq<char>, k: Look)
    ensures
        item_rows(ItemView::Error(text), k).len() == 2,
        ink(item_rows(ItemView::Error(text), k)[0].spans) == "\u{2717} "@ + text,
        item_rows(ItemView::Notice(text), k).len() == 2,
        ink(item_rows(ItemView::Notice(text), k)[0].spans) == "\u{2014} "@ + text,
        is_blank(item_rows(ItemView::Error(text), k)[1]),
        is_blank(item_rows(ItemView::Notice(text), k)[1]),
{
    let a = span_of("\u{2717} "@, Tone::RedBold);
    let b = span_of(text, Tone::Red);
    pieces_stand_one_behind_the_other(a, b, b);
    let c = span_of("\u{2014} "@, Tone::DarkGrayItalic);
    let d = span_of(text, Tone::DarkGrayItalic);
    pieces_stand_one_behind_the_other(c, d, d);
}

/// What the user said, and what streams in, stands behind its sign as it is:
/// where it fits, on one row, with the cursor behind what streams.
pub proof fn what_is_said_is_shown_as_it_is(text: Seq<char>, label: Option<Seq<char>>, k: Look)
    requires
        !text.contains('\n'),
        text.len() + 3 <= k.width,
        k.width > 3,
        !k.highlight,
    ensures
        item_rows(ItemView::User(text), k).len() == 2,
        ink(item_rows(ItemView::User(text), k)[0].spans) == "\u{276f} "@ + text,
        ({
            let rows = item_rows(ItemView::Assistant { text, streaming: true, label }, k);
            &&& rows.len() == 2
            &&& ink(rows[0].spans) == mark_text(k.session_id@) + " "@ + text + "\u{258c}"@
        }),
{
    let sign = span_of("\u{276f} "@, Tone::GreenBold);
    let none = Seq::<SpanView>::empty();
    crate::tui::render::a_short_text_is_one_row(sign, text, none, content_width(k.width));
    pieces_stand_one_behind_the_other(sign, sign, sign);
    assert("\u{276f} "@ + text + ink(none) =~= "\u{276f} "@ + text);
    let mark = span_of(mark_text(k.session_id@) + " "@, Tone::Indexed(mark_tone(k.session_id@)));
    let cursor = span_of("\u{258c}"@, Tone::Cyan);
    crate::tui::render::a_short_text_is_one_row(
        mark,
        text,
        seq![cursor],
        narrower(content_width(k.width)),
    );
    pieces_stand_one_behind_the_other(cursor, cursor, cursor);
}

/// A call is shown by its name and what it acts on, and how it stands has a
/// sign of its own.
pub proof fn a_call_is_shown_by_its_name(name: Seq<char>, arguments: Seq<char>)
    ensures
        primary_argument_text(arguments) is None ==> ink(call_line(name, arguments)) == name,
        primary_argument_text(arguments) matches Some(detail) ==> ink(call_line(name, arguments))
            == name + "  "@ + summary_text(detail, 60),
        status_mark(StatusView::Running).len() == 0,
        ink(status_mark(StatusView::AwaitingApproval)) == " ?"@,
        ink(status_mark(StatusView::Denied)) == " \u{2717}"@,
        ink(status_mark(StatusView::Done { result: name })) == " \u{2713}"@,
{
    let a = span_of(name, Tone::Bold);
    match primary_argument_text(arguments) {
        Some(detail) => {
            let b = span_of("  "@ + summary_text(detail, 60), Tone::DarkGray);
            pieces_stand_one_behind_the_other(a, b, b);
            assert(name + ("  "@ + summary_text(detail, 60)) =~= name + "  "@ + summary_text(
                detail,
                60,
            ));
        },
        None => pieces_stand_one_behind_the_other(a, a, a),
    }
    let c = status_mark(StatusView::AwaitingApproval)[0];
    let d = status_mark(StatusView::Denied)[0];
    let e = status_mark(StatusView::Done { result: name })[0];
    pieces_stand_one_behind_the_other(c, c, c);
    pieces_stand_one_behind_the_other(d, d, d);
    pieces_stand_one_behind_the_other(e, e, e);
}

/// With details every field of a call is shown, and behind them those of its
/// result once it is done; what was thought is shown only then.
pub proof fn details_are_shown_where_they_are_asked_for(
    name: Seq<char>,
    arguments: Seq<char>,
    result: Seq<char>,
    text: Seq<char>,
    k: Look,
)
    ensures
        !k.verbose ==> call_details(name, arguments, StatusView::Done { result }, k).len() == 0
            && thinking_rows(text, k).len() == 0,
        k.verbose ==> call_details(name, arguments, StatusView::Done { result }, k)
            == call_details(name, arguments, StatusView::Running, k) + field_blocks(
            json_rows(result),
            content_width(k.width),
        ),
        k.verbose ==> call_details(name, arguments, StatusView::Running, k) == field_blocks(
            call_rows(name, json_rows(arguments), opt_view(k.current_dir)),
            content_width(k.width),
        ),
{
    let fields = field_blocks(
        call_rows(name, json_rows(arguments), opt_view(k.current_dir)),
        content_width(k.width),
    );
    assert(fields + Seq::<RowView>::empty() =~= fields);
}

/// A number below zero is written with its sign.
pub proof fn a_negative_number_has_its_sign(n: nat)
    ensures
        signed_decimal(n as int) == decimal(n),
        n > 0 ==> signed_decimal(-(n as int)) == "-"@ + decimal(n),
{
}

/// What is said of a command tells how it ended where it failed, and whether
/// the model will see it.
pub proof fn a_note_tells_how_a_command_ended(code: i32)
    ensures
        shell_note(0, false) == "  "@ + "not sent"@,
        shell_note(0, true) == "  "@ + "sent \u{2014} goes with your next message"@,
        code != 0 ==> shell_note(code, false) == "  exit "@ + signed_decimal(code as int)
            + " \u{b7} "@ + "not sent"@,
        code != 0 ==> shell_note(code, true) == "  exit "@ + signed_decimal(code as int)
            + " \u{b7} "@ + "sent \u{2014} goes with your next message"@,
{
}

/// The box of a command shows the command, and once it has finished the lines
/// of what it printed, in their order.
pub proof fn the_box_shows_what_a_command_printed(
    command: String,
    output: String,
    code: i32,
    tick: int,
    i: int,
)
    requires
        0 <= i < lines(trim_end(output@)).len(),
        trim_end(output@).len() > 0,
    ensures
        ({
            let rows = shell_box(
                ShellState::Finished { command, output, exit_code: code },
                tick,
            ).1;
            &&& rows.len() == lines(trim_end(output@)).len() + 1
            &&& code == 0 ==> ink(rows[0].spans) == "$ "@ + command@
            &&& code != 0 ==> ink(rows[0].spans) == "$ "@ + command@ + ("  exit "@
                + signed_decimal(code as int))
            &&& ink(rows[i + 1].spans) == lines(trim_end(output@))[i]
        }),
        shell_box(ShellState::Running { command }, tick).1.len() == 1,
        shell_box(ShellState::Running { command }, tick).0.len() == 0,
{
    let rows = shell_box(ShellState::Finished { command, output, exit_code: code }, tick).1;
    let a = span_of("$ "@, Tone::GreenBold);
    let b = span_of(command@, Tone::Green);
    let c = span_of("  exit "@ + signed_decimal(code as int), Tone::Red);
    pieces_stand_one_behind_the_other(a, b, c);
    if code == 0 {
        assert(rows[0].spans =~= seq![a, b]);
    } else {
        assert(rows[0].spans =~= seq![a, b, c]);
    }
    let piece = span_of(lines(trim_end(output@))[i], Tone::Plain);
    pieces_stand_one_behind_the_other(piece, piece, piece);
    assert(rows[i + 1] == output_rows(lines(trim_end(output@)))[i]);
}

/// The first five messages that wait are shown in their order, each from its
/// start, and how many there are beyond them.
pub proof fn the_first_that_wait_are_shown(pending: Seq<Seq<char>>, width: nat, i: int)
    requires
        0 <= i < pending.len(),
        i < 5,
    ensures
        ink(pending_box(pending, width)[i].spans) == clipped(pending[i], width),
        pending.len() <= 5 ==> pending_box(pending, width).len() == pending.len(),
        pending.len() > 5 ==> pending_box(pending, width).len() == 6 && ink(
            pending_box(pending, width)[5].spans,
        ) == "+"@ + decimal((pending.len() - 5) as nat) + " more"@,
{
    let a = span_of(clipped(pending[i], width), Tone::DarkGray);
    pieces_stand_one_behind_the_other(a, a, a);
    let b = span_of(
        "+"@ + decimal((pending.len() - 5) as nat) + " more"@,
        Tone::DarkGrayItalic,
    );
    pieces_stand_one_behind_the_other(b, b, b);
}

/// The box that asks names the tool and shows every field, in its order, with
/// its own value.
pub proof fn the_box_that_asks_shows_every_field(
    tool_name: Seq<char>,
    fields: Seq<(Seq<char>, Seq<char>)>,
    i: int,
)
    requires
        0 <= i < fields.len(),
    ensures
        approval_box(tool_name, fields).len() == fields.len() + 1,
        ink(approval_box(tool_name, fields)[0].spans) == "tool  "@ + tool_name,
        ink(approval_box(tool_name, fields)[i + 1].spans) == fields[i].0 + "  "@ + fields[i].1,
{
    let a = span_of("tool  "@, Tone::DarkGray);
    let b = span_of(tool_name, Tone::Bold);
    pieces_stand_one_behind_the_other(a, b, b);
    let c = span_of(fields[i].0 + "  "@, Tone::DarkGray);
    let d = span_of(fields[i].1, Tone::Plain);
    pieces_stand_one_behind_the_other(c, d, d);
}

/// The title bar shows the title, and the directory where one is known.
pub proof fn the_title_bar_shows_title_and_directory(
    title: Seq<char>,
    dir: Seq<char>,
    home: Option<Seq<char>>,
)
    ensures
        ink(title_spans(title, None, home)) == title,
        ink(title_spans(title, Some(dir), home)) == title + "  "@ + home_relative_text(dir, home),
{
    let a = span_of(title, Tone::Bold);
    let b = span_of("  "@ + home_relative_text(dir, home), Tone::DarkGray);
    pieces_stand_one_behind_the_other(a, b, b);
    assert(title + ("  "@ + home_relative_text(dir, home)) =~= title + "  "@ + home_relative_text(
        dir,
        home,
    ));
}

/// The settings bar says whether a turn runs, and shows the model, the mode, the
/// effort level, the temperature and how much is shown, as they are.
pub proof fn the_settings_bar_shows_the_settings(
    app: App,
    temperature: Option<Seq<char>>,
    tick: int,
)
    ensures
        ({
            let bar = settings_spans(app, temperature, tick);
            &&& bar.len() == 6
            &&& !app.busy ==> bar[0].content == " ready "@
            &&& app.busy ==> bar[0].content == " "@ + frame_text(tick) + " working "@
            &&& bar[1].content == "\u{b7} "@ + app.model@ + " "@
            &&& app.agentic ==> bar[2].content == "\u{b7} "@ + "agent"@ + " "@
            &&& !app.agentic ==> bar[2].content == "\u{b7} "@ + "ask"@ + " "@
            &&& app.effort_level matches Some(level) ==> bar[3].content == "\u{b7} \u{1f9e0} "@
                + level@ + " "@
            &&& app.effort_level is None ==> bar[3].content == "\u{b7} \u{1f9e0} "@ + "default"@
                + " "@
            &&& temperature matches Some(t) ==> bar[4].content == "\u{b7} \u{1f321} "@ + t + " "@
            &&& temperature is None ==> bar[4].content == "\u{b7} \u{1f321} "@ + "default"@ + " "@
            &&& app.verbose ==> bar[5].content == "\u{b7} "@ + "verbose"@ + " "@
            &&& !app.verbose ==> bar[5].content == "\u{b7} "@ + "quiet"@ + " "@
        }),
{
}

/// Each gate is shown as it is, under its own name.
pub proof fn the_screen_shows_each_gate_as_it_is(approval: ApprovalSettings, changed: bool)
    ensures
        ({
            let rows = approval_status_rows(approval, changed);
            &&& rows.len() == 5
            &&& ink(rows[1].spans) == "      "@ + "Read from disk:    "@ + if approval.read_disk {
                "\u{2713} Ask"@
            } else {
                "\u{2717} Auto"@
            }
            &&& ink(rows[2].spans) == "      "@ + "Write to disk:     "@ + if approval.write_disk {
                "\u{2713} Ask"@
            } else {
                "\u{2717} Auto"@
            }
            &&& ink(rows[3].spans) == "      "@ + "Terminal commands: "@ + if approval.terminal {
                "\u{2713} Ask"@
            } else {
                "\u{2717} Auto"@
            }
        }),
{
    let rows = approval_status_rows(approval, changed);
    pieces_stand_one_behind_the_other(rows[1].spans[0], rows[1].spans[1], rows[1].spans[1]);
    pieces_stand_one_behind_the_other(rows[2].spans[0], rows[2].spans[1], rows[2].spans[1]);
    pieces_stand_one_behind_the_other(rows[3].spans[0], rows[3].spans[1], rows[3].spans[1]);
    assert(rows[1].spans =~= seq![rows[1].spans[0], rows[1].spans[1]]);
    assert(rows[2].spans =~= seq![rows[2].spans[0], rows[2].spans[1]]);
    assert(rows[3].spans =~= seq![rows[3].spans[0], rows[3].spans[1]]);
}

/// Aligning puts spaces behind a text and changes nothing else.
pub proof fn aligning_puts_spaces_behind(s: Seq<char>, width: nat)
    ensures
        s.len() >= width ==> left_aligned(s, width) == s,
        s.len() < width ==> left_aligned(s, width).len() == width,
        left_aligned(s, width).take(s.len() as int) == s,
        forall|i: int|
            s.len() <= i < left_aligned(s, width).len() ==> #[trigger] left_aligned(s, width)[i]
                == ' ',
{
    assert(left_aligned(s, width).take(s.len() as int) =~= s);
}

/// The labels of a table are as wide as the widest of them.
pub proof fn no_label_is_wider_than_the_widest(rows: Seq<(Seq<char>, Seq<char>)>, i: int)
    requires
        0 <= i < rows.len(),
    ensures
        byte_width(rows[i].0) <= widest(rows),
        exists|j: int| 0 <= j < rows.len() && byte_width((#[trigger] rows[j]).0) == widest(rows),
    decreases rows.len(),
{
    let rest = rows.drop_last();
    let n = rows.len() - 1;
    if rest.len() > 0 {
        no_label_is_wider_than_the_widest(
            rest,
            if i < n {
                i
            } else {
                0
            },
        );
        let j = choose|j: int|
            0 <= j < rest.len() && byte_width((#[trigger] rest[j]).0) == widest(rest);
        assert(rows[j] == rest[j]);
        if i < n {
            assert(rest[i] == rows[i]);
        }
    }
    assert(byte_width(rows[n].0) <= widest(rows));
    if rest.len() == 0 {
        assert(widest(rest) == 0);
        assert(byte_width(rows[n].0) == widest(rows));
    }
}

/// Each row of a table shows its label and its value.
pub proof fn each_row_of_a_table_shows_its_value(
    rows: Seq<(Seq<char>, Seq<char>)>,
    width: nat,
    i: int,
)
    requires
        0 <= i < rows.len(),
    ensures
        table_rows(rows, width).len() == rows.len(),
        ink(table_rows(rows, width)[i].spans) == "      "@ + left_aligned(rows[i].0, width) + "  "@
            + rows[i].1,
{
    let a = span_of("      "@ + left_aligned(rows[i].0, width) + "  "@, Tone::DarkGray);
    let b = span_of(rows[i].1, Tone::Plain);
    pieces_stand_one_behind_the_other(a, b, b);
}

/// A step goes the way it says, by fourteen, and stops at the ends.
pub proof fn a_step_goes_the_way_it_says(channel: u8)
    ensures
        channel <= 241 ==> shifted(channel, true) == channel + 14,
        channel > 241 ==> shifted(channel, true) == 255,
        channel >= 14 ==> shifted(channel, false) == channel - 14,
        channel < 14 ==> shifted(channel, false) == 0,
{
}

/// A higher effort and a higher temperature are shown in a warmer tone.
pub proof fn effort_and_temperature_have_their_tones(t: Temperature)
    ensures
        effort_tone(Some("low"@)) == Tone::Cyan,
        effort_tone(Some("medium"@)) == Tone::Yellow,
        effort_tone(Some("high"@)) == Tone::Red,
        effort_tone(None) == Tone::DarkGray,
        temperature_tone(None) == Tone::DarkGray,
        t.bits < 0x3F00_0000u32 ==> temperature_tone(Some(t)) == Tone::Cyan,
        0x3F00_0000u32 <= t.bits < 0x3F80_0000u32 ==> temperature_tone(Some(t)) == Tone::Yellow,
        0x3F80_0000u32 <= t.bits < 0x3FC0_0000u32 ==> temperature_tone(Some(t)) == Tone::Orange,
        0x3FC0_0000u32 <= t.bits < 0x7F80_0000u32 ==> temperature_tone(Some(t)) == Tone::Red,
{
    reveal_strlit("low");
    reveal_strlit("medium");
    reveal_strlit("high");
    assert("low"@.len() == 3 && "medium"@.len() == 6 && "high"@.len() == 4);
}

/// A command and what it printed are shown: the command with how it ended, and
/// under it the output without the blank end, where there is any.
pub proof fn a_command_is_shown_with_its_output(
    command: Seq<char>,
    output: Seq<char>,
    exit_code: i32,
    sent: bool,
    k: Look,
)
    requires
        !output.contains('\n'),
        output.len() > 0,
        trim(output) == output,
        output.len() + 2 <= k.width,
        k.width > 3,
    ensures
        ({
            let rows = item_rows(ItemView::Shell { command, output, exit_code, sent }, k);
            &&& rows.len() == 3
            &&& ink(rows[0].spans) == "$ "@ + command + shell_note(exit_code, sent)
            &&& ink(rows[1].spans) == "  "@ + output
        }),
        item_rows(ItemView::Shell { command, output: output.push('\n'), exit_code, sent }, k)
            == item_rows(ItemView::Shell { command, output, exit_code, sent }, k),
        item_rows(
            ItemView::Shell { command, output: Seq::empty(), exit_code, sent },
            k,
        ).len() == 2,
{
    crate::text::the_ends_hold_ink(output);
    let a = span_of("$ "@, Tone::GreenBold);
    let b = span_of(command, Tone::Green);
    let c = span_of(shell_note(exit_code, sent), Tone::DarkGrayItalic);
    pieces_stand_one_behind_the_other(a, b, c);
    let front = span_of("  "@, Tone::Plain);
    let none = Seq::<SpanView>::empty();
    assert(trim_end(output) == output);
    crate::tui::render::a_short_text_is_one_row(front, output, none, content_width(k.width));
    pieces_stand_one_behind_the_other(front, front, front);
    assert("  "@ + output + ink(none) =~= "  "@ + output);
    assert(output.push('\n').drop_last() =~= output);
    assert(trim_end(output.push('\n')) == output);
    crate::text::only_white_space_trims_to_nothing(output.push('\n'));
    assert(output.push('\n')[0] == output[0]);
    crate::text::only_white_space_trims_to_nothing(Seq::empty());
}

/// A call is shown behind its sign, with what it acts on, and how it stands
/// behind that; where it fits, on one row.
pub proof fn a_call_is_shown_with_how_it_stands(
    name: Seq<char>,
    arguments: Seq<char>,
    status: StatusView,
    k: Look,
)
    requires
        row_width(call_line(name, arguments)) + 3 <= k.width,
        k.width > 3,
        !k.verbose,
    ensures
        ({
            let rows = item_rows(ItemView::ToolCall { name, arguments, status }, k);
            &&& rows.len() == 2
            &&& ink(rows[0].spans) == "\u{1f528} "@ + ink(call_line(name, arguments)) + ink(
                status_mark(status),
            )
        }),
{
    let front = span_of("\u{1f528} "@, Tone::Magenta);
    crate::tui::render::a_short_line_is_one_row(
        front,
        call_line(name, arguments),
        status_mark(status),
        narrower(content_width(k.width)),
        "   "@,
    );
}

/// With details a thought is shown line by line, the first behind its sign.
pub proof fn a_thought_is_shown_line_by_line(first: Seq<char>, second: Seq<char>, k: Look)
    requires
        !first.contains('\n'),
        !second.contains('\n'),
        first.len() > 0 && first.last() != '\r',
        second.len() > 0,
        first.len() + 3 <= k.width,
        second.len() + 3 <= k.width,
        k.width > 3,
        k.verbose,
    ensures
        ({
            let rows = item_rows(ItemView::Thinking(first + seq!['\n'] + second), k);
            &&& rows.len() == 3
            &&& ink(rows[0].spans) == "\u{1f4ad} "@ + first
            &&& ink(rows[1].spans) == "   "@ + second
        }),
{
    crate::text::a_line_feed_ends_a_line(first, second);
    crate::text::a_line_feed_ends_a_line(second, Seq::empty());
    let pieces = lines(first + seq!['\n'] + second);
    assert(pieces =~= seq![first, second]);
    let a = seq![span_of(first, Tone::DarkGrayItalic)];
    let b = seq![span_of(second, Tone::DarkGrayItalic)];
    assert(toned_lines(pieces, Tone::DarkGrayItalic) =~= seq![a, b]);
    one_piece_is_as_wide_as_its_text(span_of(first, Tone::DarkGrayItalic));
    one_piece_is_as_wide_as_its_text(span_of(second, Tone::DarkGrayItalic));
    crate::tui::render::two_short_lines_are_two_rows(
        span_of("\u{1f4ad} "@, Tone::DarkGray),
        a,
        b,
        narrower(content_width(k.width)),
        "   "@,
    );
    pieces_stand_one_behind_the_other(a[0], a[0], a[0]);
    pieces_stand_one_behind_the_other(b[0], b[0], b[0]);
}

proof fn one_piece_is_as_wide_as_its_text(piece: SpanView)
    ensures
        row_width(seq![piece]) == piece.content.len(),
{
    assert(seq![piece].drop_last() =~= Seq::<SpanView>::empty());
    assert(row_width(Seq::<SpanView>::empty()) == 0);
    assert(seq![piece].last() == piece);
}

/// A whole reply is shown as it is rendered, without its fences, behind the mark
/// of the session.
pub proof fn a_whole_reply_is_shown_as_it_is_rendered(
    text: Seq<char>,
    label: Option<Seq<char>>,
    line: Seq<SpanView>,
    k: Look,
)
    requires
        without_fences(markdown_rows(text), false) == seq![line],
        row_width(line) + 3 <= k.width,
        k.width > 3,
    ensures
        ({
            let rows = item_rows(ItemView::Assistant { text, streaming: false, label }, k);
            &&& rows.len() == 2
            &&& ink(rows[0].spans) == mark_text(k.session_id@) + " "@ + ink(line)
        }),
{
    let mark = span_of(mark_text(k.session_id@) + " "@, Tone::Indexed(mark_tone(k.session_id@)));
    let none = Seq::<SpanView>::empty();
    crate::tui::render::a_short_line_is_one_row(
        mark,
        line,
        none,
        narrower(content_width(k.width)),
        "   "@,
    );
    assert(mark.content + ink(line) + ink(none) =~= mark.content + ink(line));
}

/// The settings of a session are shown as a table, label under label and value
/// under value.
pub proof fn settings_are_shown_value_under_value(
    rows: Seq<(Seq<char>, Seq<char>)>,
    k: Look,
    i: int,
)
    requires
        0 <= i < rows.len(),
    ensures
        ({
            let shown = item_rows(ItemView::SessionStatus(rows), k);
            &&& shown.len() == rows.len() + 2
            &&& ink(shown[0].spans) == "\u{2014} "@ + "Session:"@
            &&& ink(shown[1 + i].spans) == "      "@ + left_aligned(rows[i].0, widest(rows))
                + "  "@ + rows[i].1
        }),
{
    each_row_of_a_table_shows_its_value(rows, widest(rows), i);
    let shown = item_rows(ItemView::SessionStatus(rows), k);
    assert(shown[1 + i] == table_rows(rows, widest(rows))[i]);
    let a = span_of("\u{2014} "@, Tone::DarkGrayItalic);
    let b = span_of("Session:"@, Tone::DarkGrayItalic);
    pieces_stand_one_behind_the_other(a, b, b);
}

} // verus!
