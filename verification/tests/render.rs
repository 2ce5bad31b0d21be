use comms::config::Temperature;
use comms::tui::app::{App, ShellState, ToolStatus, TranscriptItem};
use comms::tui::layout::{
    chat_heights, inner_width, input_scroll, pane_of, transcript_pane, WIDEST,
};
use comms::tui::render::{
    approval_height, clip, highlight_rows, home_relative, identicon, input_cursor, input_height,
    input_lines, markdown_lines, pad_to, padding_above, pending_height, scroll_offset,
    shell_height, strip_fences,
};
use comms::tui::rows::{frame as spinner_frame, span, wrap_styled, Row, Span as Piece, Tone};
use comms::tui::transcript::{
    approval_lines, approval_title, band_for, effort_style, keybindings, look_of, pending_lines,
    pending_title, scale, settings_line, shell_lines, temperature_style, title_line,
    transcript_rows, Look,
};
use comms::ui::{summarize, ApprovalRequest};
use ratatui::backend::TestBackend;
use ratatui::layout::{Constraint, Layout, Rect};
use ratatui::style::{Color, Modifier, Style, Stylize};
use ratatui::text::{Line, Span, Text};
use ratatui::widgets::{Block, Borders, Paragraph, Wrap};
use ratatui::{Frame, Terminal};

const GAP: u16 = 1;
const KEYBIND_GRAY: Color = Color::Rgb(90, 90, 90);
const PALETTE: [u8; 12] = [33, 30, 70, 61, 96, 100, 130, 133, 136, 166, 172, 25];

fn temperature(value: f32) -> Temperature {
    Temperature {
        bits: value.to_bits(),
    }
}

fn style(tone: Tone) -> Style {
    match tone {
        Tone::Plain => Style::new(),
        Tone::Bold => Style::new().bold(),
        Tone::Green => Style::new().green(),
        Tone::GreenBold => Style::new().green().bold(),
        Tone::DarkGray => Style::new().dark_gray(),
        Tone::DarkGrayItalic => Style::new().dark_gray().italic(),
        Tone::Cyan => Style::new().cyan(),
        Tone::CyanBold => Style::new().cyan().bold(),
        Tone::Yellow => Style::new().yellow(),
        Tone::YellowBold => Style::new().yellow().bold(),
        Tone::Orange => Style::new().fg(Color::Rgb(255, 140, 0)),
        Tone::Red => Style::new().red(),
        Tone::RedBold => Style::new().red().bold(),
        Tone::Magenta => Style::new().magenta(),
        Tone::Blue => Style::new().blue(),
        Tone::Indexed(colour) => Style::new().fg(Color::Indexed(colour)),
        Tone::Rendered(style) => style,
    }
}

fn line(pieces: Vec<Piece>) -> Line<'static> {
    Line::from(
        pieces
            .into_iter()
            .map(|piece| Span::styled(piece.content, style(piece.tone)))
            .collect::<Vec<_>>(),
    )
}

fn lines(rows: Vec<Row>) -> Vec<Line<'static>> {
    rows.into_iter()
        .map(|row| {
            line(row.spans)
        })
        .collect()
}

/// An area without the gap above it.
fn below_gap(area: Rect) -> Rect {
    Rect {
        y: area.y + GAP,
        height: area.height.saturating_sub(GAP),
        ..area
    }
}

fn draw_rule(frame: &mut Frame, area: Rect) {
    frame.render_widget(
        Paragraph::new(Line::from(Span::styled(
            "─".repeat(area.width as usize),
            Style::new().dark_gray(),
        ))),
        area,
    );
}

fn draw(frame: &mut Frame, app: &App, tick: usize) {
    let area = frame.area();
    let size = Rect {
        width: area.width.min(WIDEST),
        ..area
    };
    let rows = chat_heights(app, size.width, size.height);
    let areas = Layout::vertical([
        Constraint::Length(1),
        Constraint::Length(1),
        Constraint::Min(1),
        Constraint::Length(rows.approval),
        Constraint::Length(rows.shell),
        Constraint::Length(rows.pending),
        Constraint::Length(rows.input + 2),
        Constraint::Length(1),
        Constraint::Length(1),
    ])
    .split(size);

    let title = line(title_line(&app.title, &app.working_dir, &None));
    frame.render_widget(Paragraph::new(title), areas[0]);
    draw_rule(frame, areas[1]);
    let scrolled = draw_transcript(frame, areas[2], app);
    if let Some(request) = &app.pending_approval {
        draw_approval(frame, areas[3], request);
    }
    if let Some(shell) = &app.pending_shell {
        draw_shell(frame, areas[4], shell, tick);
    }
    if rows.pending > 0 {
        draw_pending(frame, areas[5], app);
    }
    draw_input(frame, areas[6], app, scrolled);
    let temperature = app
        .temperature
        .map(|t| f32::from_bits(t.bits).to_string());
    frame.render_widget(
        Paragraph::new(line(settings_line(app, &temperature, tick))),
        areas[7],
    );
    frame.render_widget(
        Paragraph::new(Line::from(Span::styled(
            keybindings(app),
            Style::new().fg(KEYBIND_GRAY).dim(),
        ))),
        areas[8],
    );
}

/// Draws the conversation, and says whether it is scrolled away from its end.
fn draw_transcript(frame: &mut Frame, area: Rect, app: &App) -> bool {
    let look = look_of(app, area.width, Some("/work".to_string()));
    let pane = transcript_pane(app, &look, area.height);
    frame.render_widget(
        Paragraph::new(Text::from(lines(pane.rows)))
            .wrap(Wrap { trim: false })
            .scroll((pane.offset, 0)),
        area,
    );
    pane.scrolled
}

fn draw_approval(frame: &mut Frame, area: Rect, request: &ApprovalRequest) {
    frame.render_widget(
        Paragraph::new(Text::from(lines(approval_lines(request))))
            .wrap(Wrap { trim: false })
            .block(
                Block::default()
                    .borders(Borders::ALL)
                    .border_style(Style::new().yellow())
                    .title(Span::styled(
                        approval_title(request.category),
                        Style::new().yellow().bold(),
                    )),
            ),
        below_gap(area),
    );
}

fn draw_shell(frame: &mut Frame, area: Rect, shell: &ShellState, tick: usize) {
    let green = Style::new().green();
    let (title, rows) = shell_lines(shell, tick);
    let mut block = Block::default().borders(Borders::ALL).border_style(green);
    if !title.is_empty() {
        block = block.title(Span::styled(title, green.bold()));
    }
    frame.render_widget(
        Paragraph::new(Text::from(lines(rows)))
            .wrap(Wrap { trim: false })
            .block(block),
        below_gap(area),
    );
}

fn draw_pending(frame: &mut Frame, area: Rect, app: &App) {
    let width = inner_width(area.width) as usize;
    frame.render_widget(
        Paragraph::new(Text::from(lines(pending_lines(&app.pending, width)))).block(
            Block::default()
                .borders(Borders::ALL)
                .border_style(Style::new().dark_gray())
                .title(Span::styled(
                    pending_title(app.agentic),
                    Style::new().dark_gray().italic(),
                )),
        ),
        below_gap(area),
    );
}

fn draw_input(frame: &mut Frame, area: Rect, app: &App, scrolled: bool) {
    let width = inner_width(area.width);
    let rows = input_lines(&app.input, width);
    let (cursor_row, cursor_col) = input_cursor(&app.input, app.cursor, width);
    let scroll = input_scroll(cursor_row, area.height);
    let mut block = Block::default()
        .borders(Borders::ALL)
        .border_style(Style::new().dark_gray());
    if scrolled {
        block = block.title(
            Line::from(Span::styled(
                " scrolled — End to follow ",
                Style::new().yellow(),
            ))
            .right_aligned(),
        );
    }
    frame.render_widget(
        Paragraph::new(Text::from(
            rows.into_iter().map(Line::from).collect::<Vec<_>>(),
        ))
        .block(block)
        .scroll((scroll, 0)),
        area,
    );
    frame.set_cursor_position((
        area.x + 1 + cursor_col,
        area.y + 1 + cursor_row.saturating_sub(scroll),
    ));
}


fn row(text: &str) -> Row {
    Row {
        spans: vec![span(text, Tone::Plain)],
        band: false,
    }
}

fn width_of(row: &Row) -> usize {
    row.spans.iter().map(|s| s.content.chars().count()).sum()
}

#[test]
fn highlighting_off_leaves_the_rows_alone() {
    let off = highlight_rows(vec![row("short")], 40, false);
    assert_eq!(width_of(&off[0]), 5, "untouched");
    assert!(!off[0].band);

    let on = highlight_rows(vec![row("short")], 40, true);
    assert_eq!(width_of(&on[0]), 40, "padded so the band covers the row");
    assert!(on[0].band);
}

#[test]
fn the_band_steps_off_the_terminals_own_background() {
    // Not a named palette slot: themes remap those, which is how a light
    // theme came to show a near-black band.
    let dark_bg = (0x1e, 0x1e, 0x2e);
    let (r, g, b) = band_for(true, dark_bg);
    assert!(
        r > dark_bg.0 && g > dark_bg.1 && b > dark_bg.2,
        "lift a dark one"
    );
    // A tint of the background, keeping its hue — not neutral grey over
    // a coloured terminal, which reads as a smudge.
    assert!(b > r, "the background's blue cast survives");

    let light_bg = (0xfa, 0xfa, 0xf8);
    let (r, g, b) = band_for(false, light_bg);
    assert!(
        r < light_bg.0 && g < light_bg.1 && b < light_bg.2,
        "darken a light one"
    );
}

#[test]
fn the_step_stays_inside_the_channel_range() {
    // Pure black and pure white are the ends a naive add or subtract
    // would run off.
    assert_eq!(band_for(true, (0, 0, 0)), (14, 14, 14));
    assert_eq!(band_for(false, (255, 255, 255)), (241, 241, 241));
    assert_eq!(band_for(true, (250, 255, 0)), (255, 255, 14));
    assert_eq!(band_for(false, (3, 14, 20)), (0, 0, 6));
    assert_eq!(scale(0xabcd), 0xab);
}

#[test]
fn a_highlighted_row_is_padded_to_the_full_width() {
    // The band is a background, and a background only paints the cells a
    // line actually covers — so without this an unpadded row would end
    // raggedly at its text. Tested here rather than against a rendered
    // buffer because no band exists until a terminal answers, which it
    // never does under test.
    let line = pad_to(row("short"), 40);
    assert_eq!(width_of(&line), 40);

    // Already wider than the target: left alone rather than truncated,
    // since cutting a row to fit would lose text.
    let wide = pad_to(row(&"x".repeat(50)), 40);
    assert_eq!(wide.spans.len(), 1);
}

#[test]
fn a_mark_is_two_cells_of_braille_and_the_same_every_time() {
    let (mark, colour) = identicon("4f2a91b2-0000-0000-0000-000000000000");
    assert_eq!(mark, identicon("4f2a91b2-0000-0000-0000-000000000000").0);
    assert_eq!(mark.chars().count(), 2);
    for dot in mark.chars() {
        let pattern = dot as u32 - 0x2800;
        assert!(pattern < 256, "{dot:?} is not a braille pattern");
        // Never blank, never solid: a half of either kind reads as a
        // fault rather than as a mark.
        assert!((3..=7).contains(&pattern.count_ones()), "{dot:?}");
    }
    assert!(PALETTE.contains(&colour));
    let style = style(Tone::Indexed(colour));
    assert!(style.fg.is_some());
    assert!(style.bg.is_none(), "the row's own background shows through");
}

#[test]
fn marks_use_the_whole_palette_and_rarely_repeat() {
    let ids: Vec<String> = (0..500).map(|n| format!("{n:08x}-session")).collect();
    let marks: std::collections::HashSet<_> = ids.iter().map(|id| identicon(id).0).collect();
    // Two of 500 sharing a glyph pair is fine; a hash collapsing onto a
    // handful of patterns is not.
    assert!(marks.len() > 450, "only {} distinct marks", marks.len());

    let colours: std::collections::HashSet<_> = ids.iter().map(|id| identicon(id).1).collect();
    assert_eq!(colours.len(), PALETTE.len());
}

#[test]
fn the_gutter_mark_is_the_session_mark() {
    // Seeded with the id the App actually holds, not a literal chosen to
    // make the comparison work: feeding both sides the same string was
    // what let the app hash a truncated id unnoticed.
    let full = "4f2a91b2-3c1d-4e8a-9f02-7b6c5d4e3a21";
    let app = App::new("m".to_string(), None, full.to_string());
    let (mark, colour) = identicon(&app.session_id);

    // Two cells, so the gutter is three columns and wraps one narrower —
    // the same treatment the double-width tool hammer gets.
    assert_eq!(mark.chars().count(), 2);
    assert!(PALETTE.contains(&colour));
    let reply = TranscriptItem::Assistant {
        text: "one two three four five six seven".to_string(),
        streaming: false,
        label: None,
    };
    let look = Look {
        width: 20,
        verbose: false,
        highlight: false,
        session_id: app.session_id.clone(),
        current_dir: None,
    };
    let rows = transcript_rows(&vec![reply], &look);
    assert_eq!(rows[0].spans[0].content, format!("{mark} "));
    assert!(matches!(rows[0].spans[0].tone, Tone::Indexed(c) if c == colour));
    assert!(rows.len() > 1);
    for row in &rows[1..] {
        assert_eq!(row.spans[0].content, "   ");
    }

    // A truncated id is a different session as far as the hash is
    // concerned, which is how the picker and the gutter came to disagree.
    assert_ne!(mark, identicon(app.short_id()).0);
}

#[test]
fn boxes_are_as_tall_as_what_they_show_once_wrapped() {
    let mut app = App::new("m".to_string(), None, "id".to_string());
    let empty = chat_heights(&app, 40, 30);
    assert_eq!((empty.approval, empty.shell, empty.pending, empty.input), (0, 0, 0, 1));

    app.pending_shell = Some(ShellState::Running {
        command: "ls".to_string(),
    });
    assert_eq!(chat_heights(&app, 40, 30).shell, 4);
    // Two words to a line of eleven columns: three lines, and the command's.
    app.pending_shell = Some(ShellState::Finished {
        command: "ls".to_string(),
        output: "alpha beta gamma\ndelta\n".to_string(),
        exit_code: 0,
    });
    assert_eq!(chat_heights(&app, 13, 30).shell, 3 + 1 + 3);
    assert_eq!(chat_heights(&app, 40, 30).shell, 2 + 1 + 3);
    app.pending_shell = Some(ShellState::Finished {
        command: "ls".to_string(),
        output: " \n".to_string(),
        exit_code: 0,
    });
    assert_eq!(chat_heights(&app, 40, 30).shell, 1 + 1 + 3);
    app.pending_shell = None;

    // The tool, a blank row, and the argument, which takes more rows where
    // there is less room.
    app.pending_approval = Some(ApprovalRequest {
        tool_name: "read_file".to_string(),
        arguments: "{\"filepath\":\"one two three four five six\"}".to_string(),
        category: "read",
    });
    let wide = chat_heights(&app, 60, 30).approval;
    let narrow = chat_heights(&app, 16, 30).approval;
    assert_eq!(wide as usize, approval_lines(app.pending_approval.as_ref().unwrap()).len() + 3);
    assert!(narrow > wide, "{narrow} {wide}");
    assert_eq!(chat_heights(&app, 4, 30).approval, 15);
}

#[test]
fn a_pane_fills_from_below_and_scrolls_back() {
    let mut app = App::new("m".to_string(), None, "id".to_string());
    let look = Look {
        width: 20,
        verbose: false,
        highlight: false,
        session_id: "id".to_string(),
        current_dir: None,
    };
    let count = 8;
    for _ in 0..count {
        app.transcript.push(TranscriptItem::Notice("note".to_string()));
    }
    let shown = transcript_rows(&app.transcript, &look).len();
    let tall = transcript_pane(&app, &look, shown as u16 + 4);
    assert_eq!(tall.rows.len(), shown + 4);
    assert!(tall.rows[..4].iter().all(|row| row.spans.is_empty()));
    assert_eq!((tall.offset, tall.scrolled), (0, false));

    let short = transcript_pane(&app, &look, 3);
    assert_eq!(short.rows.len(), shown);
    assert_eq!((short.offset as usize, short.scrolled), (shown - 3, false));
    app.scroll_back = 2;
    let back = transcript_pane(&app, &look, 3);
    assert_eq!((back.offset as usize, back.scrolled), (shown - 5, true));
    app.scroll_back = 900;
    let start = transcript_pane(&app, &look, 3);
    assert_eq!((start.offset, start.scrolled), (0, true));

    // The lines are counted as they wrap, not as they were written.
    let rows = vec![row("a"), row("b")];
    let pane = pane_of(rows, 7, 5, 0);
    assert_eq!((pane.rows.len(), pane.offset, pane.scrolled), (2, 2, false));
    assert_eq!((inner_width(40), inner_width(2), inner_width(0)), (38, 1, 1));
    assert_eq!((input_scroll(4, 7), input_scroll(5, 7), input_scroll(2, 0)), (0, 1, 2));
}

#[test]
fn a_running_command_is_just_a_titled_border() {
    let mut app = sample_app();
    app.pending_shell = Some(ShellState::Running {
        command: "cargo test".into(),
    });
    let out = render_to_string(&app, 74, 14);
    assert!(out.contains("$ cargo test"), "{out}");
    // No decision to offer yet.
    assert!(!out.contains("Ctrl-S"), "{out}");
}

#[test]
fn a_finished_command_shows_its_output_and_its_keys() {
    let mut app = sample_app();
    app.pending_shell = Some(ShellState::Finished {
        command: "cargo test".into(),
        output: "299 passed; 0 failed".into(),
        exit_code: 0,
    });
    let out = render_to_string(&app, 74, 16);
    assert!(out.contains("299 passed"), "{out}");
    assert!(out.contains("Ctrl-S send"), "{out}");
    assert!(out.contains("Ctrl-D discard"), "{out}");
}

#[test]
fn a_failing_command_shows_its_code_beside_the_command() {
    let mut app = sample_app();
    app.pending_shell = Some(ShellState::Finished {
        command: "cargo build".into(),
        output: "error".into(),
        exit_code: 101,
    });
    let out = render_to_string(&app, 74, 16);
    assert!(out.contains("exit 101"), "{out}");
}

#[test]
fn the_two_boxes_name_different_keys() {
    // Both can be open at once, so a shared chord would act on whichever
    // happened to be there. They must not advertise the same keys.
    let mut app = sample_app();
    app.pending_approval = Some(ApprovalRequest {
        tool_name: "write_file".into(),
        category: "write",
        arguments: "{}".into(),
    });
    app.pending_shell = Some(ShellState::Finished {
        command: "ls".into(),
        output: "src".into(),
        exit_code: 0,
    });
    let out = render_to_string(&app, 78, 22);

    assert!(out.contains("Ctrl-Y allow"), "{out}");
    assert!(out.contains("Ctrl-S send"), "{out}");
    let approval_at = out.find("Write to disk").expect("approval shown");
    let shell_at = out.find("$ ls").expect("command shown");
    assert!(approval_at < shell_at, "approval sits above: {out}");
}

#[test]
fn no_box_when_no_command_has_been_run() {
    let out = render_to_string(&sample_app(), 74, 14);
    assert!(!out.contains("Ctrl-S"), "{out}");
}
/// Renders to an off-screen buffer and returns it as text, so layout can
/// be asserted (and panics caught) without a real terminal.
fn render_to_string(app: &App, width: u16, height: u16) -> String {
    let mut terminal = Terminal::new(TestBackend::new(width, height)).unwrap();
    terminal.draw(|frame| draw(frame, app, 0)).unwrap();
    let buffer = terminal.backend().buffer().clone();
    (0..buffer.area.height)
        .map(|y| {
            (0..buffer.area.width)
                .map(|x| buffer[(x, y)].symbol().to_string())
                .collect::<String>()
        })
        .collect::<Vec<_>>()
        .join("\n")
}

fn sample_app() -> App {
    let mut app = App::new("test-model".to_string(), None, "abcd1234".to_string());
    app.transcript.push(TranscriptItem::User("hello".into()));
    app.transcript.push(TranscriptItem::Assistant {
        text: "hi there".into(),
        streaming: false,
        label: Some("test-model".into()),
    });
    app
}

#[test]
fn renders_conversation_and_status() {
    let out = render_to_string(&sample_app(), 60, 20);
    assert!(out.contains("❯ hello"), "{out}");
    assert!(out.contains("hi there"), "{out}");
    assert!(out.contains("test-model"), "{out}");
    assert!(out.contains("ready"), "{out}");
}

#[test]
fn status_bar_labels_the_mode_ask_or_agent() {
    let mut app = sample_app();
    assert!(!app.agentic);
    let out = render_to_string(&app, 60, 20);
    assert!(out.contains("ask"), "{out}");
    assert!(!out.contains("chat"), "{out}");

    app.agentic = true;
    let out = render_to_string(&app, 60, 20);
    assert!(out.contains("agent"), "{out}");
}

#[test]
fn title_row_shows_the_session_title_alone() {
    let mut app = sample_app();
    app.title = "Write me a snake game".to_string();
    let out = render_to_string(&app, 60, 20);
    let title_row = out.lines().next().unwrap();
    assert_eq!(title_row.trim_end(), "Write me a snake game");
}

#[test]
fn top_status_shows_model_and_effort() {
    let mut app = sample_app();
    let out = render_to_string(&app, 80, 20);
    assert!(out.contains("test-model"), "{out}");
    assert!(out.contains("default"), "{out}");

    app.effort_level = Some("high".to_string());
    let out = render_to_string(&app, 80, 20);
    assert!(out.contains("high"), "{out}");
}

#[test]
fn top_status_shows_temperature_at_the_end() {
    let mut app = sample_app();
    let out = render_to_string(&app, 80, 20);
    assert!(out.contains("🌡 default"), "{out}");

    app.temperature = Some(temperature(1.2));
    let out = render_to_string(&app, 80, 20);
    assert!(out.contains("🌡 1.2"), "{out}");
}

#[test]
fn temperature_style_follows_a_cool_to_hot_gradient() {
    assert_eq!(temperature_style(&None), Tone::DarkGray);
    assert_eq!(temperature_style(&Some(temperature(0.0))), Tone::Cyan);
    assert_eq!(temperature_style(&Some(temperature(0.7))), Tone::Yellow);
    assert_eq!(
        temperature_style(&Some(temperature(1.2))),
        Tone::Orange
    );
    assert_eq!(temperature_style(&Some(temperature(2.0))), Tone::Red);
}

#[test]
fn effort_style_follows_a_calm_to_intense_gradient() {
    assert_eq!(effort_style(&None), Tone::DarkGray);
    assert_eq!(effort_style(&Some("low".to_string())), Tone::Cyan);
    assert_eq!(effort_style(&Some("medium".to_string())), Tone::Yellow);
    assert_eq!(effort_style(&Some("high".to_string())), Tone::Red);
}

#[test]
fn bottom_status_shows_the_verbose_indicator() {
    let mut app = sample_app();
    assert!(!app.verbose);
    let out = render_to_string(&app, 80, 20);
    assert!(out.contains("quiet"), "{out}");

    app.verbose = true;
    let out = render_to_string(&app, 80, 20);
    assert!(out.contains("verbose"), "{out}");
}

#[test]
fn a_short_conversation_sits_at_the_bottom_of_the_pane() {
    let out = render_to_string(&sample_app(), 60, 20);
    let rows: Vec<&str> = out.lines().collect();
    // Below the chat history: the input box's 3 rows (top border, one
    // content row for the empty input here, bottom border), the
    // settings row, and the key-bindings row — the last content row
    // sits right above all five of those.
    let last_content = rows.len() - 6;
    assert!(
        rows[last_content].contains("hi there"),
        "newest message should be flush with the bottom of the pane, got:\n{out}"
    );
    // ...and the space is above it, not below. Row 0 is the session
    // title and row 1 the rule under it, so content starts at row 2.
    assert!(
        rows[2].trim().is_empty(),
        "expected blank space above the conversation, got:\n{out}"
    );
}

#[test]
fn scrolling_away_from_the_bottom_flags_the_input_box() {
    let mut app = sample_app();
    for i in 0..30 {
        app.transcript
            .push(TranscriptItem::User(format!("message {i}")));
    }
    let pinned = render_to_string(&app, 60, 20);
    assert!(!pinned.contains("scrolled"), "{pinned}");

    app.scroll_back = 3;
    let scrolled = render_to_string(&app, 60, 20);
    assert!(scrolled.contains("scrolled — End to follow"), "{scrolled}");
    // On the input box's own top border, not floating elsewhere.
    let hint_row = scrolled
        .lines()
        .find(|l| l.contains("scrolled"))
        .expect("hint shown");
    assert!(
        hint_row.starts_with('┌') && hint_row.ends_with('┐'),
        "{hint_row}"
    );
}

#[test]
fn wrapped_continuation_rows_align_under_the_gutter() {
    let mut app = App::new("m".to_string(), None, "id".to_string());
    app.transcript.push(TranscriptItem::User(
        "one two three four five six seven eight nine ten".into(),
    ));
    let out = render_to_string(&app, 30, 14);
    let row = out
        .lines()
        .position(|l| l.trim_start().starts_with("❯ one"))
        .expect("first row shown");
    // The row after it is a wrap-induced continuation (no literal
    // newline in the input), and should start 2 columns in — lined up
    // under "one", not back at column 0 under the glyph.
    let continuation = out.lines().nth(row + 1).expect("continuation row");
    assert!(
        continuation.starts_with("  ") && !continuation.trim().is_empty(),
        "{continuation:?}"
    );
}

#[test]
fn code_block_indentation_survives_wrapping() {
    // The wrap-styled "drop a leading space" rule is meant for the
    // stray space a wrap break happens to land on mid-line — not for a
    // line's own leading whitespace, which is real content (nested
    // indentation inside a code block, say) and must be kept.
    let mut app = App::new("m".to_string(), None, "id".to_string());
    app.transcript.push(TranscriptItem::Assistant {
        text: "```python\nif True:\n    return 1\n```".into(),
        streaming: false,
        label: Some("m".into()),
    });
    let out = render_to_string(&app, 50, 20);
    let indented = out
        .lines()
        .find(|l| l.contains("return 1"))
        .expect("indented line shown");
    // Reply gutter (3 cols: the session's braille square and a space)
    // plus the code's own 4-space indent.
    assert!(indented.starts_with("       return 1"), "{indented:?}");
}

#[test]
fn newest_stays_visible_even_with_unbreakable_text() {
    // Long unbroken tokens (paths, URLs, base64) wrap differently than
    // ordinary prose. If the height estimate disagrees with how ratatui
    // actually lays them out, the view scrolls to the wrong place and the
    // newest message falls below the fold.
    let mut app = App::new("m".to_string(), None, "id".to_string());
    let blob = format!("/a/very/long/unbroken/path/{}", "x".repeat(200));
    for i in 0..12 {
        app.transcript.push(TranscriptItem::Assistant {
            text: format!("msg {i} {blob}"),
            streaming: false,
            label: Some("m".into()),
        });
    }
    app.transcript
        .push(TranscriptItem::User("LASTMESSAGE".to_string()));

    let out = render_to_string(&app, 60, 14);
    assert!(
        out.contains("LASTMESSAGE"),
        "newest message scrolled out of view:\n{out}"
    );
}

#[test]
fn a_long_conversation_still_shows_the_newest_at_the_bottom() {
    let mut app = App::new("m".to_string(), None, "id".to_string());
    for i in 0..40 {
        app.transcript
            .push(TranscriptItem::User(format!("message {i}")));
    }
    let out = render_to_string(&app, 60, 12);
    assert!(out.contains("message 39"), "{out}");
    // The oldest has scrolled off the top.
    assert!(!out.contains("message 0 "), "{out}");
}

#[test]
fn streaming_block_shows_a_cursor() {
    let mut app = App::new("m".to_string(), None, "id".to_string());
    app.transcript.push(TranscriptItem::Assistant {
        text: "partial".into(),
        streaming: true,
        label: Some("m".into()),
    });
    let out = render_to_string(&app, 40, 12);
    assert!(out.contains('▌'), "{out}");
}

#[test]
fn busy_state_shows_the_spinner() {
    let mut app = sample_app();
    app.busy = true;
    let out = render_to_string(&app, 80, 15);
    assert!(out.contains("working"), "{out}");
}

#[test]
fn nothing_waiting_means_no_box_at_all() {
    let app = sample_app();
    let out = render_to_string(&app, 80, 15);
    assert!(!out.contains("joining this turn"), "{out}");
    assert!(!out.contains("next turn"), "{out}");
}

#[test]
fn waiting_messages_are_listed_above_the_prompt() {
    let mut app = sample_app();
    app.busy = true;
    app.agentic = true;
    app.pending
        .push("check the Windows path too".to_string());
    app.pending.push("and skip the slow tests".to_string());

    let out = render_to_string(&app, 80, 18);
    assert!(out.contains("joining this turn"), "{out}");
    assert!(out.contains("check the Windows path too"), "{out}");
    assert!(out.contains("and skip the slow tests"), "{out}");
    // The count moved out of the settings row and into the box.
    assert!(!out.contains("queued"), "{out}");
}

#[test]
fn the_title_says_where_a_waiting_message_is_headed() {
    let mut app = sample_app();
    app.agentic = false;
    app.pending.push("run it again".to_string());
    let out = render_to_string(&app, 80, 18);
    assert!(out.contains("next turn"), "{out}");
    assert!(!out.contains("joining this turn"), "{out}");
}

#[test]
fn a_long_queue_is_summarised_rather_than_filling_the_screen() {
    let mut app = sample_app();
    for n in 0..8 {
        app.pending.push(format!("message {n}"));
    }
    let out = render_to_string(&app, 80, 22);
    assert!(out.contains("message 0"), "{out}");
    assert!(out.contains("message 4"), "{out}");
    assert!(!out.contains("message 5"), "{out}");
    assert!(out.contains("+3 more"), "{out}");
}

#[test]
fn the_box_yields_before_the_transcript_does() {
    // Eight waiting messages want more rows than a short terminal has.
    // Whatever gives, the conversation keeps a row and nothing panics.
    let mut app = sample_app();
    for n in 0..8 {
        app.pending.push(format!("message {n}"));
    }
    let out = render_to_string(&app, 60, 10);
    assert!(out.contains("hi there"), "{out}");
}

#[test]
fn pending_box_is_only_as_tall_as_it_needs() {
    assert_eq!(pending_height(0), 0, "no box when nothing waits");
    assert_eq!(pending_height(1), 4, "one row, two borders, the gap");
    assert_eq!(pending_height(5), 5 + 3);
    // Past the cap it stops growing except for the "+N more" line.
    assert_eq!(pending_height(5 + 1), 5 + 4);
    assert_eq!(pending_height(100), 5 + 4);
}

#[test]
fn a_waiting_message_is_one_row_however_it_was_typed() {
    assert_eq!(clip("two\nlines", 20), "two lines");
    assert_eq!(clip("abcdefgh", 4), "abc…");
    assert_eq!(clip("abcd", 4), "abcd");
    assert_eq!(clip("abc", 0), "");
}

#[test]
fn an_approval_gets_its_own_box_and_leaves_the_input_alone() {
    let mut app = sample_app();
    for c in "half a thought".chars() {
        app.insert_char(c);
    }
    app.pending_approval = Some(ApprovalRequest {
        tool_name: "write_file".into(),
        category: "write",
        arguments: r#"{"filepath":"/tmp/a.txt"}"#.into(),
    });

    let out = render_to_string(&app, 70, 22);
    assert!(out.contains("Write to disk"), "{out}");
    assert!(out.contains("write_file"), "{out}");
    assert!(out.contains("/tmp/a.txt"), "{out}");
    // The whole point: what was being typed is still there and still
    // editable while the decision waits.
    assert!(out.contains("half a thought"), "{out}");
}

#[test]
fn the_approval_box_names_the_keys_that_answer_it() {
    // Answering no longer takes over the input, so nothing else would
    // tell you a decision is owed or how to give it.
    let mut app = sample_app();
    app.pending_approval = Some(ApprovalRequest {
        tool_name: "run_terminal_command".into(),
        category: "terminal",
        arguments: r#"{"command":"ls"}"#.into(),
    });
    let out = render_to_string(&app, 78, 22);
    assert!(out.contains("Ctrl-Y allow"), "{out}");
    assert!(out.contains("Ctrl-N deny"), "{out}");
    assert!(out.contains("Terminal command"), "{out}");
}

#[test]
fn the_keybinding_row_answers_the_question_the_box_raises() {
    let mut app = sample_app();
    let idle = render_to_string(&app, 78, 22);
    assert!(!idle.contains("Ctrl-Y"), "{idle}");

    app.pending_approval = Some(ApprovalRequest {
        tool_name: "write_file".into(),
        category: "write",
        arguments: "{}".into(),
    });
    let waiting = render_to_string(&app, 78, 22);
    assert!(waiting.contains("Ctrl-Y allow"), "{waiting}");
    assert!(waiting.contains("Ctrl-N deny"), "{waiting}");
}

#[test]
fn the_approval_sits_between_the_transcript_and_the_input() {
    let mut app = sample_app();
    for c in "typing on".chars() {
        app.insert_char(c);
    }
    app.pending_approval = Some(ApprovalRequest {
        tool_name: "write_file".into(),
        category: "write",
        arguments: "{}".into(),
    });
    let out = render_to_string(&app, 70, 22);

    let reply_at = out.find("hi there").expect("transcript shown");
    let approval_at = out.find("Write to disk").expect("approval shown");
    let input_at = out.find("typing on").expect("input shown");
    assert!(reply_at < approval_at, "{out}");
    assert!(approval_at < input_at, "{out}");
}

#[test]
fn approval_prompt_stays_visible_when_a_field_is_too_long_to_fit_one_row() {
    // A `content` value long enough to wrap. The box is sized from the
    // wrapped height, so the tail of the value stays on screen instead
    // of falling below the bottom edge — it is the half of the request
    // you most need to read before allowing it.
    let mut app = sample_app();
    app.pending_approval = Some(ApprovalRequest {
        tool_name: "write_file".into(),
        category: "write",
        arguments: format!(
            r#"{{"filepath":"/tmp/a.txt","content":"{}"}}"#,
            "x".repeat(90)
        ),
    });
    let out = render_to_string(&app, 80, 24);
    // The value wraps onto a second row, and that row is inside the box.
    assert!(out.contains(&"x".repeat(40)), "{out}");
    assert!(out.contains("Write to disk"), "{out}");
}

#[test]
fn tool_calls_render_with_status() {
    let mut app = App::new("m".to_string(), None, "id".to_string());
    app.transcript.push(TranscriptItem::ToolCall {
        name: "read_file".into(),
        arguments: r#"{"filepath":"a.rs"}"#.into(),
        status: ToolStatus::Done {
            result: r#"{"success":true}"#.into(),
        },
    });
    let out = render_to_string(&app, 70, 12);
    assert!(out.contains("read_file"), "{out}");
    assert!(out.contains('✓'), "{out}");
}

#[test]
fn tool_call_gutter_is_generic_and_status_trails_the_line() {
    let mut app = App::new("m".to_string(), None, "id".to_string());
    app.transcript.push(TranscriptItem::ToolCall {
        name: "read_file".into(),
        arguments: r#"{"filepath":"a.rs"}"#.into(),
        status: ToolStatus::Done {
            result: r#"{"success":true}"#.into(),
        },
    });
    let out = render_to_string(&app, 70, 12);
    let row = out
        .lines()
        .find(|l| l.contains("read_file"))
        .expect("header row shown");
    assert!(row.trim_start().starts_with("🔨  read_file"), "{row:?}");
    assert!(row.trim_end().ends_with('✓'), "{row:?}");
}

#[test]
fn a_running_tool_call_has_no_trailing_marker() {
    let mut app = App::new("m".to_string(), None, "id".to_string());
    app.transcript.push(TranscriptItem::ToolCall {
        name: "run_terminal_command".into(),
        arguments: r#"{"command":"cargo build"}"#.into(),
        status: ToolStatus::Running,
    });
    let out = render_to_string(&app, 70, 12);
    let row = out
        .lines()
        .find(|l| l.contains("run_terminal_command"))
        .expect("header row shown");
    assert!(
        row.trim_start().starts_with("🔨  run_terminal_command"),
        "{row:?}"
    );
    assert!(!row.contains('▸'), "{row:?}");
}

#[test]
fn tool_call_header_wraps_under_the_gutter() {
    let mut app = App::new("m".to_string(), None, "id".to_string());
    app.transcript.push(TranscriptItem::ToolCall {
        name: "a_pretty_long_tool_name_that_should_wrap_around".into(),
        arguments: "{}".into(),
        status: ToolStatus::Running,
    });
    let out = render_to_string(&app, 30, 14);
    let row = out
        .lines()
        .position(|l| l.trim_start().starts_with("🔨  a_pretty"))
        .expect("header row shown");
    let continuation = out.lines().nth(row + 1).expect("continuation row");
    // 3 columns, not the usual 2 — "🔨 " is double-width, one column
    // wider than the other markers' gutter.
    assert!(
        continuation.starts_with("   ") && !continuation.trim().is_empty(),
        "{continuation:?}"
    );
}

#[test]
fn verbose_field_values_wrap_under_themselves_not_the_label() {
    let mut app = App::new("m".to_string(), None, "id".to_string());
    app.verbose = true;
    app.transcript.push(TranscriptItem::ToolCall {
        name: "write_file".into(),
        arguments:
            r#"{"content":"a value long enough that it should wrap onto a second row here"}"#
                .into(),
        status: ToolStatus::Done {
            result: "{}".into(),
        },
    });
    let out = render_to_string(&app, 40, 16);
    let label_row = out
        .lines()
        .position(|l| l.contains("content"))
        .expect("field label shown");
    let continuation = out.lines().nth(label_row + 1).expect("continuation row");
    // Indented past the label's own width, not just the 2-column
    // message gutter, and not empty.
    assert!(
        continuation.starts_with("     ") && !continuation.trim().is_empty(),
        "{continuation:?}"
    );
}

#[test]
fn approval_status_pretty_prints_each_gate_like_the_cli_does() {
    let mut app = App::new("m".to_string(), None, "id".to_string());
    app.transcript.push(TranscriptItem::ApprovalStatus {
        approval: comms::config::ApprovalSettings {
            read_disk: false,
            write_disk: true,
            terminal: true,
        },
        changed: false,
    });
    let out = render_to_string(&app, 70, 12);
    assert!(out.contains("Approval is:"), "{out}");
    assert!(out.contains("Read from disk:"), "{out}");
    assert!(out.contains("Write to disk:"), "{out}");
    assert!(out.contains("Terminal commands:"), "{out}");
    assert!(out.contains("✗ Auto"), "{out}");
    assert!(out.contains("✓ Ask"), "{out}");
}

#[test]
fn session_status_lists_every_setting() {
    let mut app = App::new("m".to_string(), None, "id".to_string());
    app.transcript.push(TranscriptItem::SessionStatus(vec![
        ("Model".to_string(), "openrouter/auto".to_string()),
        ("Temperature".to_string(), "none sent".to_string()),
    ]));

    let out = render_to_string(&app, 70, 14);
    assert!(out.contains("Session:"), "{out}");
    assert!(out.contains("Model"), "{out}");
    assert!(out.contains("openrouter/auto"), "{out}");
    assert!(out.contains("none sent"), "{out}");
    // Unlike thinking, this is a direct answer to a question the user
    // just asked, so it shows regardless of verbose.
    assert!(!app.verbose);
}

#[test]
fn thinking_only_shows_when_verbose() {
    let mut app = App::new("m".to_string(), None, "id".to_string());
    app.transcript
        .push(TranscriptItem::Thinking("weighing the options".to_string()));

    let out = render_to_string(&app, 70, 12);
    assert!(!out.contains("weighing the options"), "{out}");

    app.verbose = true;
    let out = render_to_string(&app, 70, 12);
    assert!(out.contains("weighing the options"), "{out}");
}

#[test]
fn tool_call_arguments_and_result_only_show_when_verbose() {
    let mut app = App::new("m".to_string(), None, "id".to_string());
    app.transcript.push(TranscriptItem::ToolCall {
        name: "read_file".into(),
        arguments: r#"{"filepath":"a.rs"}"#.into(),
        status: ToolStatus::Done {
            result: r#"{"success":true}"#.into(),
        },
    });

    let out = render_to_string(&app, 70, 12);
    assert!(out.contains("read_file"), "{out}");
    assert!(!out.contains("filepath"), "{out}");
    assert!(!out.contains("success"), "{out}");

    app.verbose = true;
    let out = render_to_string(&app, 70, 12);
    assert!(out.contains("filepath"), "{out}");
    assert!(out.contains("success"), "{out}");
}

#[test]
fn tool_call_shows_its_file_or_command_even_when_not_verbose() {
    let mut app = App::new("m".to_string(), None, "id".to_string());
    app.transcript.push(TranscriptItem::ToolCall {
        name: "write_file".into(),
        arguments: r#"{"filepath":"src/main.rs","content":"fn main() {}"}"#.into(),
        status: ToolStatus::Running,
    });
    app.transcript.push(TranscriptItem::ToolCall {
        name: "run_terminal_command".into(),
        arguments: r#"{"command":"cargo test"}"#.into(),
        status: ToolStatus::Running,
    });

    let out = render_to_string(&app, 70, 16);
    assert!(out.contains("src/main.rs"), "{out}");
    assert!(!out.contains("fn main"), "{out}");
    assert!(out.contains("cargo test"), "{out}");
}

#[test]
fn renders_without_panicking_at_awkward_sizes() {
    // The layout reserves 3 rows for input and 1 for status; a terminal
    // smaller than that must clamp rather than underflow.
    let mut app = sample_app();
    app.pending_approval = Some(ApprovalRequest {
        tool_name: "write_file".into(),
        category: "write",
        arguments: "{}".into(),
    });
    for (w, h) in [(1, 1), (3, 2), (10, 4), (20, 5), (200, 60)] {
        let _ = render_to_string(&app, w, h);
    }
}

fn plain(lines: &[Vec<Piece>]) -> Vec<String> {
    lines
        .iter()
        .map(|l| l.iter().map(|s| s.content.as_str()).collect())
        .collect()
}

#[test]
fn markdown_strips_markers_and_styles_the_text() {
    let rendered = markdown_lines("**bold** and `code`");
    let text = plain(&rendered).join("");
    assert!(text.contains("bold"), "{text:?}");
    assert!(!text.contains("**"), "markers should be gone: {text:?}");
    assert!(!text.contains('`'), "markers should be gone: {text:?}");

    let styled = rendered
        .iter()
        .flatten()
        .filter(|s| style(s.tone).add_modifier.contains(Modifier::BOLD))
        .count();
    assert!(styled > 0, "bold should carry a style");
}

#[test]
fn code_fences_become_a_language_tag_and_keep_their_code() {
    let rendered = markdown_lines("before\n\n```rust\nfn main() {}\n```\n\nafter");
    let text = plain(&rendered);
    assert!(
        text.iter().all(|l| !l.contains("```")),
        "backticks should not survive: {text:?}"
    );
    assert!(text.iter().any(|l| l.trim() == "rust"), "{text:?}");
    assert!(text.iter().any(|l| l.contains("fn main()")), "{text:?}");
    assert!(text.iter().any(|l| l.contains("before")), "{text:?}");
    assert!(text.iter().any(|l| l.contains("after")), "{text:?}");
}

#[test]
fn an_unlabelled_fence_still_marks_the_block() {
    let text = plain(&markdown_lines("```\nplain code\n```"));
    assert!(text.iter().any(|l| l.trim() == "code"), "{text:?}");
    assert!(text.iter().any(|l| l.contains("plain code")), "{text:?}");
    assert!(text.iter().all(|l| !l.contains("```")), "{text:?}");
}

#[test]
fn lists_survive_rendering() {
    let text = plain(&markdown_lines("- one\n- two\n\n1. first\n2. second")).join("\n");
    for expected in ["one", "two", "first", "second"] {
        assert!(text.contains(expected), "{text:?}");
    }
}

#[test]
fn only_assistant_text_is_treated_as_markdown() {
    let mut app = App::new("m".to_string(), None, "id".to_string());
    app.transcript
        .push(TranscriptItem::User("literal **stars** here".to_string()));
    app.transcript.push(TranscriptItem::Assistant {
        text: "rendered **stars** here".to_string(),
        streaming: false,
        label: Some("m".into()),
    });
    let out = render_to_string(&app, 60, 14);
    // The user's own asterisks are shown as typed; the reply's are not.
    assert!(out.contains("literal **stars**"), "{out}");
    assert!(!out.contains("rendered **stars**"), "{out}");
    assert!(out.contains("rendered stars"), "{out}");
}

#[test]
fn a_streaming_reply_is_left_unformatted_until_it_finishes() {
    let mut app = App::new("m".to_string(), None, "id".to_string());
    // Mid-stream an unclosed fence would otherwise render as a stray tag.
    app.transcript.push(TranscriptItem::Assistant {
        text: "partial **bold".to_string(),
        streaming: true,
        label: Some("m".into()),
    });
    let out = render_to_string(&app, 60, 14);
    assert!(out.contains("partial **bold"), "{out}");
}

#[test]
fn input_wraps_and_tracks_the_caret_together() {
    // The caret must land in the same rows the box actually draws.
    let rows = input_lines("abcdefghij", 4);
    assert_eq!(rows, vec!["abcd", "efgh", "ij"]);
    assert_eq!(input_cursor("abcdefghij", 10, 4), (2, 2));

    // Explicit newlines start a row, including empty ones.
    assert_eq!(input_lines("a\n\nb", 10), vec!["a", "", "b"]);
    assert_eq!(input_cursor("a\n\nb", 4, 10), (2, 1));

    // A segment that exactly fills a row puts the caret on the next.
    assert_eq!(input_lines("abcd", 4), vec!["abcd", ""]);
    assert_eq!(input_cursor("abcd", 4, 4), (1, 0));
}

#[test]
fn the_message_box_grows_with_multiline_input() {
    let mut app = sample_app();
    let single = render_to_string(&app, 40, 16);
    app.input = "one\ntwo\nthree".to_string();
    app.cursor = app.input.len();
    let multi = render_to_string(&app, 40, 16);

    // All three lines are visible simultaneously — which only happens if
    // the box actually grew to 3 rows; at 1 row, cursor-follow scrolling
    // would show just "three" and hide the rest.
    assert!(
        multi.contains("one") && multi.contains("two") && multi.contains("three"),
        "expected the input box to grow:\n{multi}"
    );
    assert_ne!(multi, single);
}

#[test]
fn a_huge_input_cannot_squeeze_out_the_conversation() {
    let mut app = sample_app();
    app.input = (0..200)
        .map(|i| format!("line {i}"))
        .collect::<Vec<_>>()
        .join("\n");
    app.cursor = app.input.len();
    // Must render, and the transcript must still get rows.
    let out = render_to_string(&app, 40, 14);
    assert!(out.lines().count() == 14, "{out}");
}

#[test]
fn summarize_flattens_and_truncates() {
    assert_eq!(summarize("a\nb\tc", 10), "a b c");
    assert_eq!(summarize(&"x".repeat(20), 5), "xxxxx…");
    assert_eq!(summarize("  padded  ", 20), "padded");
}

#[test]
fn summarize_counts_characters_not_bytes() {
    // Truncating by byte index here would panic or corrupt the text.
    let text = "é".repeat(20);
    assert_eq!(summarize(&text, 3).chars().count(), 4); // 3 + ellipsis
}

#[test]
fn wrapping_keeps_every_word_and_no_row_is_too_wide() {
    let line = vec![
        span("some ", Tone::Plain),
        span("styled words", Tone::Bold),
        span(" andoneverylongword", Tone::Plain),
    ];
    let rows = wrap_styled(&line, 8);
    let text: Vec<String> = plain(&rows);
    assert!(text.iter().all(|row| row.chars().count() <= 8), "{text:?}");
    assert_eq!(
        text.concat().replace(' ', ""),
        "somestyledwordsandoneverylongword"
    );
    assert_eq!(text[0], "some ");
}

#[test]
fn a_directory_at_home_is_shown_short() {
    let home = Some("/home/me".to_string());
    assert_eq!(home_relative("/home/me/x", &home), "~/x");
    assert_eq!(home_relative("/srv", &home), "/srv");
    assert_eq!(home_relative("/srv", &None), "/srv");
}

#[test]
fn boxes_are_as_tall_as_what_they_hold() {
    assert_eq!(approval_height(2), 5);
    assert_eq!(approval_height(40), 15);
    assert_eq!(shell_height(None), 4);
    assert_eq!(shell_height(Some(3)), 7);
    assert_eq!(shell_height(Some(500)), 15);
    assert_eq!(input_height(0, 40, 0, 0, 0), 1);
    assert_eq!(input_height(30, 40, 0, 0, 0), 10);
    assert_eq!(input_height(30, 12, 3, 0, 0), 2);
    assert_eq!(input_height(30, 4, 3, 9, 9), 1);
    assert_eq!(padding_above(3, 10), 7);
    assert_eq!(padding_above(30, 10), 0);
    assert_eq!(scroll_offset(30, 10, 0), (20, false));
    assert_eq!(scroll_offset(30, 10, 5), (15, true));
    assert_eq!(scroll_offset(30, 10, 500), (0, true));
    assert_eq!(scroll_offset(5, 10, 5), (0, false));
}

#[test]
fn the_spinner_goes_round() {
    assert_eq!(spinner_frame(0), "\u{280b}");
    assert_eq!(spinner_frame(9), "\u{280f}");
    assert_eq!(spinner_frame(10), spinner_frame(0));
}

#[test]
fn fences_are_taken_out_in_pairs() {
    let line = |text: &str| vec![span(text, Tone::Plain)];
    let stripped = strip_fences(vec![
        line("a"),
        line("```rust"),
        line("code"),
        line("```"),
        line("```"),
        line("more"),
    ]);
    assert_eq!(plain(&stripped), vec!["a", "rust", "code", "code", "more"]);
}

#[test]
fn code_in_a_fence_is_coloured_by_its_language() {
    let lines = markdown_lines("```rust\nlet answer = 42;\n```");
    let code = lines
        .iter()
        .find(|line| line.iter().any(|piece| piece.content.contains("answer")))
        .unwrap();
    let colours: Vec<_> = code.iter().map(|piece| style(piece.tone).fg).collect();
    assert!(colours.iter().all(|colour| colour.is_some()), "{colours:?}");
    assert!(colours.iter().any(|colour| *colour != colours[0]), "{colours:?}");
}

#[test]
fn a_line_that_fits_keeps_its_spaces_and_its_tones() {
    let line = vec![
        span("  two  words", Tone::Bold),
        span("and more ", Tone::Cyan),
    ];
    for width in [21, 40] {
        let rows = wrap_styled(&line, width);
        assert_eq!(rows.len(), 1);
        let shown: Vec<(char, bool)> = rows[0]
            .iter()
            .flat_map(|piece| piece.content.chars().map(|c| (c, piece.tone == Tone::Bold)))
            .collect();
        let given: Vec<(char, bool)> = line
            .iter()
            .flat_map(|piece| piece.content.chars().map(|c| (c, piece.tone == Tone::Bold)))
            .collect();
        assert_eq!(shown, given);
    }
    assert!(wrap_styled(&line, 20).len() > 1);
}

#[test]
fn summarizing_twice_is_summarizing_once() {
    for text in ["  a\nb\tc  ", "", "one two three four"] {
        for max in [0, 1, 4, 5, 100] {
            let once = summarize(text, max);
            assert_eq!(summarize(&once, max), once);
        }
    }
    assert_eq!(summarize("one two three", 4), "one \u{2026}");
}
