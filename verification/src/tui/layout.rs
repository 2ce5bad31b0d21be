//! How the chat screen is shared out: how tall each box is, and which part of
//! the transcript its pane shows.

use ratatui::text::{Line, Text};
use ratatui::widgets::{Paragraph, Wrap};
use vstd::prelude::*;

use crate::text::{chars_of, lines, trim_end, trim_end_chars};
use crate::tui::app::{item_views, App, ShellState};
use crate::tui::render::{
    approval_height, box_width, input_height, input_height_value, input_lines, padding_above,
    pending_height, pending_rows_count, scroll_offset, shell_height, typed_rows,
};
use crate::tui::rows::{append_rows, blank, blank_row, push_row, row_views, Row, RowView};
use crate::tui::transcript::{
    approval_box, approval_lines, blocks_rows, output_lines, output_rows, transcript_rows,
    without_blank_end, Look,
};
use crate::ui::{json_rows, ApprovalRequest};

verus! {

/// The widest screen that is laid out. A quarter of the range of the widths:
/// up to there no sum of widths that `Paragraph::line_count` makes leaves it.
pub const WIDEST: u16 = 16383;

/// How many lines `Paragraph::line_count` gives rows that are wrapped to a
/// width, with the spaces at the start of a line kept.
pub uninterp spec fn wrapped_lines(rows: Seq<RowView>, width: u16) -> usize;

/// Calls `ratatui::widgets::Paragraph::line_count` on the texts of the rows,
/// wrapped with `Wrap { trim: false }`. How the words of a row are spread over
/// lines is the wrapper's own affair; the count is the same for the same rows
/// and width.
#[verifier::external_body]
fn line_count(rows: &Vec<Row>, width: u16) -> (r: usize)
    requires
        width <= WIDEST,
    ensures
        r == wrapped_lines(row_views(rows@), width),
{
    let lines: Vec<Line> = rows.iter().map(
        |row| Line::from_iter(row.spans.iter().map(|span| span.content.as_str())),
    ).collect();
    Paragraph::new(Text::from(lines)).wrap(Wrap { trim: false }).line_count(width)
}

/// How tall wrapped rows are on the screen, whose heights are sixteen bits.
pub open spec fn screen_height(count: usize) -> u16 {
    (count % 65536) as u16
}

fn wrapped_height(rows: &Vec<Row>, width: u16) -> (r: u16)
    requires
        width <= WIDEST,
    ensures
        r == screen_height(wrapped_lines(row_views(rows@), width)),
{
    (line_count(rows, width) % 65536) as u16
}

/// The width inside a box: without its borders, and one column at least.
pub open spec fn inner_width_value(width: u16) -> u16 {
    if width > 3 {
        (width - 2) as u16
    } else {
        1
    }
}

/// The width inside a box.
pub fn inner_width(width: u16) -> (r: u16)
    ensures
        r == inner_width_value(width),
        1 <= r,
        width >= 1 ==> r <= width,
{
    if width > 3 {
        width - 2
    } else {
        1
    }
}

/// How tall the box that asks about a call is: as its rows are wrapped at the
/// width they are drawn at, twelve at most, and borders and a gap.
pub open spec fn approval_box_height(request: Option<ApprovalRequest>, width: u16) -> int {
    match request {
        Some(request) => {
            let rows = approval_box(request.tool_name@, json_rows(request.arguments@));
            let wrapped = screen_height(wrapped_lines(rows, inner_width_value(width)));
            if wrapped < 12 {
                wrapped + 3
            } else {
                15
            }
        },
        None => 0,
    }
}

/// What the box of a command is measured by: the lines of its output.
pub open spec fn measured_output(output: Seq<char>) -> Seq<RowView> {
    if trim_end(output).len() == 0 {
        seq![blank_row()]
    } else {
        output_rows(lines(trim_end(output)))
    }
}

/// How tall the box of a command is: the command's row and those of its
/// output, if it has finished; twelve at most, and borders and a gap.
pub open spec fn shell_box_height(shell: Option<ShellState>, width: u16) -> int {
    match shell {
        Some(ShellState::Finished { output, .. }) => {
            let wrapped = screen_height(
                wrapped_lines(measured_output(output@), inner_width_value(width)),
            );
            if wrapped < 11 {
                wrapped + 4
            } else {
                15
            }
        },
        Some(ShellState::Running { .. }) => 4,
        None => 0,
    }
}

fn output_height(output: &str, width: u16) -> (r: u16)
    requires
        width <= WIDEST,
    ensures
        r == screen_height(wrapped_lines(measured_output(output@), width)),
{
    let chars: Vec<char> = chars_of(output);
    let text: &[char] = trim_end_chars(&chars);
    if text.len() == 0 {
        let mut rows: Vec<Row> = Vec::new();
        push_row(&mut rows, blank());
        assert(row_views(rows@) =~= seq![blank_row()]);
        wrapped_height(&rows, width)
    } else {
        wrapped_height(&output_lines(text), width)
    }
}

/// How tall the boxes below the transcript are.
pub struct Heights {
    pub approval: u16,
    pub shell: u16,
    pub pending: u16,
    /// The rows of the input, without the borders of its box.
    pub input: u16,
}

/// Shares out a screen: each box below the transcript is as tall as what it
/// shows at that width, and a box that shows nothing takes no row.
pub fn chat_heights(app: &App, width: u16, height: u16) -> (r: Heights)
    requires
        width <= WIDEST,
    ensures
        r.approval == approval_box_height(app.pending_approval, width),
        r.shell == shell_box_height(app.pending_shell, width),
        r.pending == pending_rows_count(app.pending@.len()),
        ({
            let inside = if width > 2 {
                width - 2
            } else {
                0
            };
            let rows = typed_rows(app.input@, box_width(inside as u16)).len();
            r.input == input_height_value(
                (rows % 65536) as int,
                height as int,
                r.pending + r.approval + r.shell,
            )
        }),
        1 <= r.input <= 10,
{
    let inside: u16 = if width > 2 {
        width - 2
    } else {
        0
    };
    let inner: u16 = inner_width(width);
    let typed: Vec<String> = input_lines(&app.input, inside);
    let content: u16 = (typed.len() % 65536) as u16;
    let pending: u16 = pending_height(app.pending.len());
    let approval: u16 = match &app.pending_approval {
        Some(request) => approval_height(wrapped_height(&approval_lines(request), inner)),
        None => 0,
    };
    let shell: u16 = match &app.pending_shell {
        Some(ShellState::Running { .. }) => shell_height(None),
        Some(ShellState::Finished { output, .. }) => shell_height(
            Some(output_height(output, inner)),
        ),
        None => 0,
    };
    let input: u16 = input_height(content, height, pending, approval, shell);
    Heights { approval, shell, pending, input }
}

/// What a pane shows of the transcript.
pub struct Pane {
    pub rows: Vec<Row>,
    /// How many lines are scrolled off above.
    pub offset: u16,
    /// Whether the pane has been scrolled away from the end.
    pub scrolled: bool,
}

/// So many blank rows.
pub open spec fn blank_rows(n: nat) -> Seq<RowView> {
    Seq::new(n, |i: int| blank_row())
}

/// What a pane of a size shows of rows: with blank ones above them where they
/// do not fill it, and scrolled back from their end, `total` being how tall
/// they are.
pub open spec fn shows(
    pane: Pane,
    rows: Seq<RowView>,
    total: int,
    height: int,
    scroll_back: int,
) -> bool {
    let hidden = if total > height {
        total - height
    } else {
        0
    };
    &&& row_views(pane.rows@) == if total < height {
        blank_rows((height - total) as nat) + rows
    } else {
        rows
    }
    &&& pane.offset == if scroll_back < hidden {
        hidden - scroll_back
    } else {
        0
    }
    &&& pane.scrolled == (scroll_back != 0 && hidden > 0)
}

/// What a pane shows of rows that take so many lines.
pub fn pane_of(rows: Vec<Row>, total: u16, height: u16, scroll_back: u16) -> (r: Pane)
    ensures
        shows(r, row_views(rows@), total as int, height as int, scroll_back as int),
{
    let above: u16 = padding_above(total, height);
    let mut padded: Vec<Row> = Vec::new();
    let mut i: u16 = 0;
    assert(row_views(padded@) =~= blank_rows(0));
    while i < above
        invariant
            i <= above,
            row_views(padded@) == blank_rows(i as nat),
        decreases above - i,
    {
        push_row(&mut padded, blank());
        i = i + 1;
        assert(row_views(padded@) =~= blank_rows(i as nat));
    }
    append_rows(&mut padded, rows);
    assert(above == 0 ==> row_views(padded@) =~= row_views(rows@));
    let filled: u16 = if total < height {
        height
    } else {
        total
    };
    let (offset, scrolled): (u16, bool) = scroll_offset(filled, height, scroll_back);
    Pane { rows: padded, offset, scrolled }
}

/// What the pane of the transcript shows. The width of the pane is part of the
/// look.
pub fn transcript_pane(app: &App, look: &Look, height: u16) -> (r: Pane)
    requires
        look.width <= WIDEST,
    ensures
        ({
            let rows = without_blank_end(blocks_rows(item_views(app.transcript@), *look));
            shows(
                r,
                rows,
                screen_height(wrapped_lines(rows, look.width)) as int,
                height as int,
                app.scroll_back as int,
            )
        }),
{
    let rows: Vec<Row> = transcript_rows(&app.transcript, look);
    let total: u16 = wrapped_height(&rows, look.width);
    pane_of(rows, total, height, app.scroll_back)
}

/// How far the input is scrolled in its box so that the cursor stays in sight.
pub open spec fn input_scroll_value(cursor_row: int, height: int) -> int {
    let visible = if height > 3 {
        height - 2
    } else {
        1
    };
    if cursor_row + 1 > visible {
        cursor_row + 1 - visible
    } else {
        0
    }
}

/// How far the input is scrolled in a box of a height.
pub fn input_scroll(cursor_row: u16, height: u16) -> (r: u16)
    ensures
        r == input_scroll_value(cursor_row as int, height as int),
        r <= cursor_row,
{
    let visible: u16 = if height > 3 {
        height - 2
    } else {
        1
    };
    if cursor_row >= visible {
        cursor_row - visible + 1
    } else {
        0
    }
}

/// Whatever was typed, the cursor's row is one of those that the input's box
/// shows.
pub proof fn the_cursor_stays_in_sight(cursor_row: int, height: int)
    requires
        0 <= cursor_row,
    ensures
        0 <= input_scroll_value(cursor_row, height) <= cursor_row,
        cursor_row - input_scroll_value(cursor_row, height) < if height > 3 {
            height - 2
        } else {
            1
        },
{
}

/// Until it is scrolled back a pane shows the end of the transcript: what is
/// scrolled off above is all that does not fit. Scrolled back as far as it
/// goes, and further, it shows the start.
pub proof fn a_pane_follows_the_end(pane: Pane, rows: Seq<RowView>, total: int, height: int)
    requires
        0 <= total <= u16::MAX,
        0 <= height <= u16::MAX,
    ensures
        shows(pane, rows, total, height, 0) ==> !pane.scrolled && (total > height ==> pane.offset
            + height == total) && (total <= height ==> pane.offset == 0),
        forall|back: int|
            back >= total && #[trigger] shows(pane, rows, total, height, back) ==> pane.offset == 0,
{
}

/// A height that fits the screen's sixteen bits is the number of lines.
pub proof fn a_height_is_the_number_of_lines(count: usize)
    requires
        count <= u16::MAX,
    ensures
        screen_height(count) == count,
{
}

/// A box takes the lines of what it shows, its borders and a gap, twelve lines
/// at most, and nothing where there is nothing to show.
pub proof fn a_box_takes_the_lines_it_shows(
    request: ApprovalRequest,
    command: String,
    output: String,
    exit_code: i32,
    width: u16,
)
    ensures
        approval_box_height(None, width) == 0,
        shell_box_height(None, width) == 0,
        shell_box_height(Some(ShellState::Running { command }), width) == 1 + 2 + 1,
        3 <= approval_box_height(Some(request), width) <= 12 + 2 + 1,
        ({
            let count = wrapped_lines(
                approval_box(request.tool_name@, json_rows(request.arguments@)),
                inner_width_value(width),
            );
            count <= 12 ==> approval_box_height(Some(request), width) == count + 2 + 1
        }),
        ({
            let count = wrapped_lines(measured_output(output@), inner_width_value(width));
            count <= 11 ==> shell_box_height(
                Some(ShellState::Finished { command, output, exit_code }),
                width,
            ) == 1 + count + 2 + 1
        }),
        width > 3 ==> inner_width_value(width) == width - 2,
        width <= 3 ==> inner_width_value(width) == 1,
{
}

/// A pane shows the rows it is given, all of them and in their order, with
/// nothing but blank rows above them.
pub proof fn a_pane_shows_its_rows(
    pane: Pane,
    rows: Seq<RowView>,
    total: int,
    height: int,
    scroll_back: int,
)
    requires
        shows(pane, rows, total, height, scroll_back),
        0 <= total,
        0 <= height,
    ensures
        total >= height ==> row_views(pane.rows@) == rows,
        total < height ==> row_views(pane.rows@).len() == rows.len() + height - total,
        total < height ==> row_views(pane.rows@).skip(height - total) == rows,
        total < height ==> forall|i: int|
            0 <= i < height - total ==> (#[trigger] row_views(pane.rows@)[i]).spans.len() == 0,
        0 < scroll_back < total - height ==> pane.scrolled && pane.offset + height + scroll_back
            == total,
{
    if total < height {
        assert(row_views(pane.rows@).skip(height - total) =~= rows);
    }
}

} // verus!
