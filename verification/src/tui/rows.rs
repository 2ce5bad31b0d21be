//! Rows of styled text, and how a line is wrapped into them.

use ratatui::style::Style;
use vstd::prelude::*;
use vstd::string::*;

use crate::text::{chars_of, string_of};

verus! {

/// The style of a piece of text, as `ratatui` has it.
#[verifier::external_type_specification]
#[verifier::external_body]
pub struct ExStyle(ratatui::style::Style);

/// How a piece of text looks.
#[derive(Debug, Clone, Copy, PartialEq)]
pub enum Tone {
    Plain,
    Bold,
    Green,
    GreenBold,
    DarkGray,
    DarkGrayItalic,
    Cyan,
    CyanBold,
    Yellow,
    YellowBold,
    Orange,
    Red,
    RedBold,
    Magenta,
    Blue,
    /// A colour of the 256-colour palette.
    Indexed(u8),
    /// What the markdown renderer chose.
    Rendered(Style),
}

/// A piece of text of one look.
#[derive(Debug, Clone, PartialEq)]
pub struct Span {
    pub content: String,
    pub tone: Tone,
}

/// A row on the screen; `band` is the tint behind the whole of it.
#[derive(Debug, Clone, PartialEq)]
pub struct Row {
    pub spans: Vec<Span>,
    pub band: bool,
}

pub struct SpanView {
    pub content: Seq<char>,
    pub tone: Tone,
}

pub struct RowView {
    pub spans: Seq<SpanView>,
    pub band: bool,
}

impl View for Span {
    type V = SpanView;

    open spec fn view(&self) -> SpanView {
        SpanView { content: self.content@, tone: self.tone }
    }
}

pub open spec fn span_views(s: Seq<Span>) -> Seq<SpanView> {
    s.map_values(|x: Span| x@)
}

impl View for Row {
    type V = RowView;

    open spec fn view(&self) -> RowView {
        RowView { spans: span_views(self.spans@), band: self.band }
    }
}

pub open spec fn row_views(s: Seq<Row>) -> Seq<RowView> {
    s.map_values(|x: Row| x@)
}

/// The views of several lines of spans.
pub open spec fn line_views(s: Seq<Vec<Span>>) -> Seq<Seq<SpanView>> {
    s.map_values(|x: Vec<Span>| span_views(x@))
}

pub open spec fn span_of(content: Seq<char>, tone: Tone) -> SpanView {
    SpanView { content, tone }
}

/// A row without a band.
pub open spec fn plain_row(spans: Seq<SpanView>) -> RowView {
    RowView { spans, band: false }
}

/// A row with nothing on it.
pub open spec fn blank_row() -> RowView {
    plain_row(Seq::empty())
}

pub fn span(content: &str, tone: Tone) -> (r: Span)
    ensures
        r@ == span_of(content@, tone),
{
    Span { content: String::from_str(content), tone }
}

pub(crate) fn clone_span(s: &Span) -> (r: Span)
    ensures
        r@ == s@,
{
    Span { content: s.content.clone(), tone: s.tone }
}

pub(crate) fn push_span(spans: &mut Vec<Span>, s: Span)
    ensures
        span_views(final(spans)@) == span_views(old(spans)@).push(s@),
{
    let ghost before = span_views(spans@);
    spans.push(s);
    assert(span_views(spans@) =~= before.push(s@));
}

pub(crate) fn push_row(rows: &mut Vec<Row>, row: Row)
    ensures
        row_views(final(rows)@) == row_views(old(rows)@).push(row@),
{
    let ghost before = row_views(rows@);
    rows.push(row);
    assert(row_views(rows@) =~= before.push(row@));
}

pub(crate) fn append_rows(rows: &mut Vec<Row>, more: Vec<Row>)
    ensures
        row_views(final(rows)@) == row_views(old(rows)@) + row_views(more@),
{
    let mut more: Vec<Row> = more;
    let ghost before = rows@;
    let ghost added = more@;
    rows.append(&mut more);
    assert(row_views(rows@) =~= row_views(before) + row_views(added));
}

pub(crate) fn row_of(spans: Vec<Span>) -> (r: Row)
    ensures
        r@ == plain_row(span_views(spans@)),
{
    Row { spans, band: false }
}

pub(crate) fn blank() -> (r: Row)
    ensures
        r@ == blank_row(),
{
    let spans: Vec<Span> = Vec::new();
    assert(span_views(spans@) =~= Seq::<SpanView>::empty());
    Row { spans, band: false }
}

pub(crate) fn one_span(s: Span) -> (r: Vec<Span>)
    ensures
        span_views(r@) == seq![s@],
{
    let mut spans: Vec<Span> = Vec::new();
    spans.push(s);
    assert(span_views(spans@) =~= seq![s@]);
    spans
}

pub(crate) fn two_spans(a: Span, b: Span) -> (r: Vec<Span>)
    ensures
        span_views(r@) == seq![a@, b@],
{
    let mut spans: Vec<Span> = one_span(a);
    push_span(&mut spans, b);
    assert(span_views(spans@) =~= seq![a@, b@]);
    spans
}

/// The frames of the spinner.
pub open spec fn frame_text(tick: int) -> Seq<char> {
    let i = tick % 10;
    if i == 0 {
        "\u{280b}"@
    } else if i == 1 {
        "\u{2819}"@
    } else if i == 2 {
        "\u{2839}"@
    } else if i == 3 {
        "\u{2838}"@
    } else if i == 4 {
        "\u{283c}"@
    } else if i == 5 {
        "\u{2834}"@
    } else if i == 6 {
        "\u{2826}"@
    } else if i == 7 {
        "\u{2827}"@
    } else if i == 8 {
        "\u{2807}"@
    } else {
        "\u{280f}"@
    }
}

/// The spinner's frame at a tick.
pub fn frame(tick: usize) -> (r: &'static str)
    ensures
        r@ == frame_text(tick as int),
{
    let i: usize = tick % 10;
    if i == 0 {
        "\u{280b}"
    } else if i == 1 {
        "\u{2819}"
    } else if i == 2 {
        "\u{2839}"
    } else if i == 3 {
        "\u{2838}"
    } else if i == 4 {
        "\u{283c}"
    } else if i == 5 {
        "\u{2834}"
    } else if i == 6 {
        "\u{2826}"
    } else if i == 7 {
        "\u{2827}"
    } else if i == 8 {
        "\u{2807}"
    } else {
        "\u{280f}"
    }
}

/// Every frame of the spinner is one character.
pub proof fn a_frame_is_one_character(tick: int)
    ensures
        frame_text(tick).len() == 1,
{
    reveal_strlit("\u{280b}");
    reveal_strlit("\u{2819}");
    reveal_strlit("\u{2839}");
    reveal_strlit("\u{2838}");
    reveal_strlit("\u{283c}");
    reveal_strlit("\u{2834}");
    reveal_strlit("\u{2826}");
    reveal_strlit("\u{2827}");
    reveal_strlit("\u{2807}");
    reveal_strlit("\u{280f}");
}

// ---------------------------------------------------------------------------
// Wrapping
// ---------------------------------------------------------------------------

/// A word, or a single space.
pub struct Token {
    pub text: Seq<char>,
    pub tone: Tone,
    pub space: bool,
}

pub open spec fn word_token(text: Seq<char>, tone: Tone) -> Token {
    Token { text, tone, space: false }
}

pub open spec fn space_token(tone: Tone) -> Token {
    Token { text: " "@, tone, space: true }
}

/// The tokens with the word behind them, if there is one.
pub open spec fn flushed(tokens: Seq<Token>, word: Seq<char>, tone: Tone) -> Seq<Token> {
    if word.len() == 0 {
        tokens
    } else {
        tokens.push(word_token(word, tone))
    }
}

/// The tokens of a text, and the word at its end that may go on.
pub open spec fn scanned(s: Seq<char>, tone: Tone) -> (Seq<Token>, Seq<char>)
    decreases s.len(),
{
    if s.len() == 0 {
        (Seq::empty(), Seq::empty())
    } else {
        let (tokens, word) = scanned(s.drop_last(), tone);
        if s.last() == ' ' {
            (flushed(tokens, word, tone).push(space_token(tone)), Seq::empty())
        } else {
            (tokens, word.push(s.last()))
        }
    }
}

/// The words and spaces of a text.
pub open spec fn text_tokens(s: Seq<char>, tone: Tone) -> Seq<Token> {
    flushed(scanned(s, tone).0, scanned(s, tone).1, tone)
}

/// The words and spaces of a line.
pub open spec fn line_tokens(line: Seq<SpanView>) -> Seq<Token>
    decreases line.len(),
{
    if line.len() == 0 {
        Seq::empty()
    } else {
        line_tokens(line.drop_last()) + text_tokens(line.last().content, line.last().tone)
    }
}

/// Rows so far, and how much of the last one is used.
pub struct Layout {
    pub rows: Seq<Seq<SpanView>>,
    pub col: nat,
}

pub open spec fn fresh_row(l: Layout) -> Layout {
    Layout { rows: l.rows.push(Seq::empty()), col: 0 }
}

/// A layout once a piece stands at the end of its last row.
pub open spec fn put(l: Layout, text: Seq<char>, tone: Tone) -> Layout {
    Layout {
        rows: l.rows.drop_last().push(l.rows.last().push(span_of(text, tone))),
        col: l.col + text.len(),
    }
}

/// A layout once a word that fits on no row is cut into pieces of a row each.
pub open spec fn put_pieces(l: Layout, text: Seq<char>, tone: Tone, width: nat) -> Layout
    decreases text.len(),
{
    if text.len() == 0 || width == 0 {
        l
    } else {
        let n = if text.len() <= width {
            text.len()
        } else {
            width
        };
        let start = if l.col > 0 {
            fresh_row(l)
        } else {
            l
        };
        put_pieces(put(start, text.take(n as int), tone), text.skip(n as int), tone, width)
    }
}

/// A layout once a token has been placed. A space at the start of a row is
/// dropped unless it opens the line, and one that does not fit ends its row.
pub open spec fn placed(l: Layout, token: Token, first: bool, width: nat) -> Layout {
    if token.space {
        if l.col == 0 && !first {
            l
        } else if l.col + token.text.len() > width {
            fresh_row(l)
        } else {
            put(l, token.text, token.tone)
        }
    } else if token.text.len() > width {
        put_pieces(l, token.text, token.tone, width)
    } else {
        let start = if l.col > 0 && l.col + token.text.len() > width {
            fresh_row(l)
        } else {
            l
        };
        put(start, token.text, token.tone)
    }
}

pub open spec fn empty_layout() -> Layout {
    Layout { rows: seq![Seq::empty()], col: 0 }
}

/// A layout of tokens, placed in their order.
pub open spec fn laid_out(tokens: Seq<Token>, width: nat) -> Layout
    decreases tokens.len(),
{
    if tokens.len() == 0 {
        empty_layout()
    } else {
        placed(
            laid_out(tokens.drop_last(), width),
            tokens.last(),
            tokens.len() == 1,
            width,
        )
    }
}

/// The width that text is wrapped to: at least one column.
pub open spec fn usable_width(width: usize) -> nat {
    if width == 0 {
        1
    } else {
        width as nat
    }
}

/// The rows of a line wrapped to a width.
pub open spec fn wrapped_rows(line: Seq<SpanView>, width: usize) -> Seq<Seq<SpanView>> {
    laid_out(line_tokens(line), usable_width(width)).rows
}

/// A token with its text in a vector.
struct Piece {
    text: Vec<char>,
    tone: Tone,
    space: bool,
}

spec fn piece_token(p: Piece) -> Token {
    Token { text: p.text@, tone: p.tone, space: p.space }
}

spec fn piece_tokens(s: Seq<Piece>) -> Seq<Token> {
    s.map_values(|p: Piece| piece_token(p))
}

fn push_piece(pieces: &mut Vec<Piece>, p: Piece)
    ensures
        piece_tokens(final(pieces)@) == piece_tokens(old(pieces)@).push(piece_token(p)),
{
    let ghost before = piece_tokens(pieces@);
    pieces.push(p);
    assert(piece_tokens(pieces@) =~= before.push(piece_token(p)));
}

fn tokenize(line: &Vec<Span>) -> (r: Vec<Piece>)
    ensures
        piece_tokens(r@) == line_tokens(span_views(line@)),
{
    let mut pieces: Vec<Piece> = Vec::new();
    let ghost all = span_views(line@);
    let mut i: usize = 0;
    assert(piece_tokens(pieces@) =~= line_tokens(all.take(0)));
    while i < line.len()
        invariant
            i <= line@.len(),
            all == span_views(line@),
            piece_tokens(pieces@) == line_tokens(all.take(i as int)),
        decreases line@.len() - i,
    {
        let ghost before = piece_tokens(pieces@);
        let tone: Tone = line[i].tone;
        let chars: Vec<char> = chars_of(&line[i].content);
        let mut word: Vec<char> = Vec::new();
        let mut j: usize = 0;
        assert(chars@.take(0) =~= Seq::<char>::empty());
        assert(piece_tokens(pieces@) =~= before + scanned(chars@.take(0), tone).0);
        while j < chars.len()
            invariant
                j <= chars@.len(),
                word@ == scanned(chars@.take(j as int), tone).1,
                piece_tokens(pieces@) == before + scanned(chars@.take(j as int), tone).0,
            decreases chars@.len() - j,
        {
            assert(chars@.take(j + 1).drop_last() =~= chars@.take(j as int));
            let ghost so_far = piece_tokens(pieces@);
            let c: char = chars[j];
            if c == ' ' {
                if word.len() > 0 {
                    push_piece(&mut pieces, Piece { text: word, tone, space: false });
                    word = Vec::new();
                }
                let mut one: Vec<char> = Vec::new();
                one.push(' ');
                proof {
                    reveal_strlit(" ");
                    assert(one@ =~= " "@);
                }
                push_piece(&mut pieces, Piece { text: one, tone, space: true });
                assert(piece_tokens(pieces@) =~= before + scanned(chars@.take(j + 1), tone).0);
                assert(word@ =~= Seq::<char>::empty());
            } else {
                word.push(c);
            }
            j = j + 1;
        }
        assert(chars@.take(j as int) =~= chars@);
        if word.len() > 0 {
            push_piece(&mut pieces, Piece { text: word, tone, space: false });
        }
        assert(piece_tokens(pieces@) =~= before + text_tokens(chars@, tone));
        assert(all.take(i + 1).drop_last() =~= all.take(i as int));
        assert(all.take(i + 1).last() == line@[i as int]@);
        i = i + 1;
    }
    assert(all.take(i as int) =~= all);
    pieces
}

/// Puts a piece at the end of the last row.
fn put_on_last(rows: &mut Vec<Vec<Span>>, text: &[char], tone: Tone)
    requires
        old(rows)@.len() > 0,
    ensures
        line_views(final(rows)@) == line_views(old(rows)@).drop_last().push(
            line_views(old(rows)@).last().push(span_of(text@, tone)),
        ),
        final(rows)@.len() == old(rows)@.len(),
{
    let ghost before = line_views(rows@);
    match rows.pop() {
        Some(row) => {
            let mut row: Vec<Span> = row;
            assert(line_views(rows@) =~= before.drop_last());
            assert(span_views(row@) == before.last());
            push_span(&mut row, Span { content: string_of(text), tone });
            let ghost head = line_views(rows@);
            rows.push(row);
            assert(line_views(rows@) =~= head.push(span_views(row@)));
        },
        None => {},
    }
}

fn start_row(rows: &mut Vec<Vec<Span>>)
    ensures
        line_views(final(rows)@) == line_views(old(rows)@).push(Seq::empty()),
        final(rows)@.len() == old(rows)@.len() + 1,
{
    let ghost before = line_views(rows@);
    let row: Vec<Span> = Vec::new();
    assert(span_views(row@) =~= Seq::<SpanView>::empty());
    rows.push(row);
    assert(line_views(rows@) =~= before.push(Seq::empty()));
}

/// Wraps a line to a width. Rows break at spaces; a word that is longer than a
/// row is cut.
pub fn wrap_styled(line: &Vec<Span>, width: usize) -> (r: Vec<Vec<Span>>)
    ensures
        line_views(r@) == wrapped_rows(span_views(line@), width),
        r@.len() > 0,
{
    let width: usize = if width == 0 {
        1
    } else {
        width
    };
    let pieces: Vec<Piece> = tokenize(line);
    let ghost tokens = piece_tokens(pieces@);
    let mut rows: Vec<Vec<Span>> = Vec::new();
    start_row(&mut rows);
    let mut col: usize = 0;
    let mut i: usize = 0;
    assert(line_views(rows@) =~= laid_out(tokens.take(0), width as nat).rows);
    while i < pieces.len()
        invariant
            i <= pieces@.len(),
            width > 0,
            tokens == piece_tokens(pieces@),
            rows@.len() > 0,
            line_views(rows@) == laid_out(tokens.take(i as int), width as nat).rows,
            col == laid_out(tokens.take(i as int), width as nat).col,
            col <= width,
        decreases pieces@.len() - i,
    {
        let ghost l = laid_out(tokens.take(i as int), width as nat);
        assert(tokens.take(i + 1).drop_last() =~= tokens.take(i as int));
        assert(tokens.take(i + 1).last() == piece_token(pieces@[i as int]));
        let piece: &Piece = &pieces[i];
        let n: usize = piece.text.len();
        if piece.space {
            proof {
                lemma_space_is_one(span_views(line@), i as int);
            }
            if col == 0 && i != 0 {
            } else if n > width - col {
                start_row(&mut rows);
                col = 0;
            } else {
                put_on_last(&mut rows, &piece.text, piece.tone);
                col = col + n;
            }
        } else if n > width {
            let mut at: usize = 0;
            assert(piece.text@.skip(0) =~= piece.text@);
            while at < n
                invariant
                    at <= n,
                    n == piece.text@.len(),
                    width > 0,
                    rows@.len() > 0,
                    col <= width,
                    put_pieces(
                        Layout { rows: line_views(rows@), col: col as nat },
                        piece.text@.skip(at as int),
                        piece.tone,
                        width as nat,
                    ) == put_pieces(l, piece.text@, piece.tone, width as nat),
                decreases n - at,
            {
                let ghost rest = piece.text@.skip(at as int);
                let m: usize = if n - at <= width {
                    n - at
                } else {
                    width
                };
                if col > 0 {
                    start_row(&mut rows);
                    col = 0;
                }
                let part: &[char] = vstd::slice::slice_subrange(&piece.text, at, at + m);
                assert(part@ =~= rest.take(m as int));
                put_on_last(&mut rows, part, piece.tone);
                col = m;
                assert(rest.skip(m as int) =~= piece.text@.skip(at + m));
                at = at + m;
            }
            assert(piece.text@.skip(at as int).len() == 0);
        } else {
            if col > 0 && n > width - col {
                start_row(&mut rows);
                col = 0;
            }
            put_on_last(&mut rows, &piece.text, piece.tone);
            col = col + n;
        }
        i = i + 1;
    }
    assert(tokens.take(i as int) =~= tokens);
    rows
}

proof fn lemma_tokens_are_words_or_spaces(s: Seq<char>, tone: Tone)
    ensures
        forall|i: int|
            0 <= i < scanned(s, tone).0.len() ==> is_token(#[trigger] scanned(s, tone).0[i]),
        !scanned(s, tone).1.contains(' '),
    decreases s.len(),
{
    reveal_strlit(" ");
    assert(" "@ =~= seq![' ']);
    if s.len() > 0 {
        lemma_tokens_are_words_or_spaces(s.drop_last(), tone);
        let (tokens, word) = scanned(s.drop_last(), tone);
        let after = scanned(s, tone);
        assert forall|i: int| 0 <= i < after.0.len() implies is_token(#[trigger] after.0[i]) by {
            if i < tokens.len() {
                assert(after.0[i] == tokens[i]);
            }
        }
        if s.last() != ' ' {
            assert forall|i: int| 0 <= i < after.1.len() implies #[trigger] after.1[i] != ' ' by {
                if i < word.len() {
                    assert(word.contains(word[i]));
                }
            }
        }
    }
}

/// A token is a single space, or a word without any.
pub open spec fn is_token(t: Token) -> bool {
    if t.space {
        t.text == seq![' ']
    } else {
        t.text.len() > 0 && !t.text.contains(' ')
    }
}

proof fn lemma_line_tokens(line: Seq<SpanView>)
    ensures
        forall|i: int|
            0 <= i < line_tokens(line).len() ==> is_token(#[trigger] line_tokens(line)[i]),
    decreases line.len(),
{
    if line.len() > 0 {
        lemma_line_tokens(line.drop_last());
        let last = line.last();
        lemma_tokens_are_words_or_spaces(last.content, last.tone);
        let head = line_tokens(line.drop_last());
        let tail = text_tokens(last.content, last.tone);
        assert forall|i: int| 0 <= i < line_tokens(line).len() implies is_token(
            #[trigger] line_tokens(line)[i],
        ) by {
            if i < head.len() {
                assert(line_tokens(line)[i] == head[i]);
            } else {
                assert(line_tokens(line)[i] == tail[i - head.len()]);
                let scan = scanned(last.content, last.tone);
                if i - head.len() < scan.0.len() {
                    assert(tail[i - head.len()] == scan.0[i - head.len()]);
                }
            }
        }
    }
}

proof fn lemma_space_is_one(line: Seq<SpanView>, i: int)
    ensures
        0 <= i < line_tokens(line).len() && line_tokens(line)[i].space ==> line_tokens(
            line,
        )[i].text.len() == 1,
{
    lemma_line_tokens(line);
    if 0 <= i < line_tokens(line).len() {
        assert(is_token(line_tokens(line)[i]));
    }
}

/// How many characters stand on a row.
pub open spec fn row_width(row: Seq<SpanView>) -> nat
    decreases row.len(),
{
    if row.len() == 0 {
        0
    } else {
        row_width(row.drop_last()) + row.last().content.len()
    }
}

/// Whether every row keeps to a width, and the last one is as wide as the
/// layout says.
pub open spec fn keeps_to(l: Layout, width: nat) -> bool {
    &&& l.rows.len() > 0
    &&& l.col <= width
    &&& row_width(l.rows.last()) == l.col
    &&& forall|i: int| 0 <= i < l.rows.len() ==> row_width(#[trigger] l.rows[i]) <= width
}

proof fn lemma_fresh_row_keeps(l: Layout, width: nat)
    requires
        keeps_to(l, width),
    ensures
        keeps_to(fresh_row(l), width),
{
    let f = fresh_row(l);
    assert forall|i: int| 0 <= i < f.rows.len() implies row_width(#[trigger] f.rows[i]) <= width by {
        if i < l.rows.len() {
            assert(f.rows[i] == l.rows[i]);
        }
    }
}

proof fn lemma_put_keeps(l: Layout, text: Seq<char>, tone: Tone, width: nat)
    requires
        keeps_to(l, width),
        l.col + text.len() <= width,
    ensures
        keeps_to(put(l, text, tone), width),
{
    let p = put(l, text, tone);
    let row = l.rows.last().push(span_of(text, tone));
    assert(row.drop_last() =~= l.rows.last());
    assert forall|i: int| 0 <= i < p.rows.len() implies row_width(#[trigger] p.rows[i]) <= width by {
        if i < l.rows.len() - 1 {
            assert(p.rows[i] == l.rows[i]);
        }
    }
}

proof fn lemma_put_pieces_keeps(l: Layout, text: Seq<char>, tone: Tone, width: nat)
    requires
        keeps_to(l, width),
        width > 0,
    ensures
        keeps_to(put_pieces(l, text, tone, width), width),
    decreases text.len(),
{
    if text.len() > 0 {
        let n = if text.len() <= width {
            text.len()
        } else {
            width
        };
        let start = if l.col > 0 {
            fresh_row(l)
        } else {
            l
        };
        lemma_fresh_row_keeps(l, width);
        lemma_put_keeps(start, text.take(n as int), tone, width);
        lemma_put_pieces_keeps(
            put(start, text.take(n as int), tone),
            text.skip(n as int),
            tone,
            width,
        );
    }
}

proof fn lemma_laid_out_keeps(tokens: Seq<Token>, width: nat)
    requires
        width > 0,
    ensures
        keeps_to(laid_out(tokens, width), width),
    decreases tokens.len(),
{
    if tokens.len() > 0 {
        lemma_laid_out_keeps(tokens.drop_last(), width);
        let l = laid_out(tokens.drop_last(), width);
        let t = tokens.last();
        lemma_fresh_row_keeps(l, width);
        if t.space {
            if l.col + t.text.len() <= width {
                lemma_put_keeps(l, t.text, t.tone, width);
            }
        } else if t.text.len() > width {
            lemma_put_pieces_keeps(l, t.text, t.tone, width);
        } else if l.col > 0 && l.col + t.text.len() > width {
            lemma_put_keeps(fresh_row(l), t.text, t.tone, width);
        } else {
            lemma_put_keeps(l, t.text, t.tone, width);
        }
    } else {
        assert(row_width(Seq::empty()) == 0);
    }
}

/// No row of a wrapped line is wider than the width it was wrapped to.
pub proof fn no_wrapped_row_is_too_wide(line: Seq<SpanView>, width: usize)
    ensures
        wrapped_rows(line, width).len() > 0,
        forall|i: int|
            0 <= i < wrapped_rows(line, width).len() ==> row_width(
                #[trigger] wrapped_rows(line, width)[i],
            ) <= usable_width(width),
{
    lemma_laid_out_keeps(line_tokens(line), usable_width(width));
}

/// A text without its spaces.
pub open spec fn without_spaces(s: Seq<char>) -> Seq<char>
    decreases s.len(),
{
    if s.len() == 0 {
        Seq::empty()
    } else if s.last() == ' ' {
        without_spaces(s.drop_last())
    } else {
        without_spaces(s.drop_last()).push(s.last())
    }
}

/// What stands on a row, without the spaces.
pub open spec fn row_ink(row: Seq<SpanView>) -> Seq<char>
    decreases row.len(),
{
    if row.len() == 0 {
        Seq::empty()
    } else {
        row_ink(row.drop_last()) + without_spaces(row.last().content)
    }
}

/// What stands on all rows, one behind the other, without the spaces.
pub open spec fn rows_ink(rows: Seq<Seq<SpanView>>) -> Seq<char>
    decreases rows.len(),
{
    if rows.len() == 0 {
        Seq::empty()
    } else {
        rows_ink(rows.drop_last()) + row_ink(rows.last())
    }
}

/// What the words of tokens come to.
pub open spec fn tokens_ink(tokens: Seq<Token>) -> Seq<char>
    decreases tokens.len(),
{
    if tokens.len() == 0 {
        Seq::empty()
    } else {
        tokens_ink(tokens.drop_last()) + without_spaces(tokens.last().text)
    }
}

proof fn lemma_ink_of_sum(a: Seq<char>, b: Seq<char>)
    ensures
        without_spaces(a + b) == without_spaces(a) + without_spaces(b),
    decreases b.len(),
{
    if b.len() == 0 {
        assert(a + b =~= a);
        assert(without_spaces(a) + without_spaces(b) =~= without_spaces(a));
    } else {
        lemma_ink_of_sum(a, b.drop_last());
        assert((a + b).drop_last() =~= a + b.drop_last());
        assert(without_spaces(a + b) =~= without_spaces(a) + without_spaces(b));
    }
}

proof fn lemma_fresh_row_ink(l: Layout)
    ensures
        rows_ink(fresh_row(l).rows) == rows_ink(l.rows),
{
    assert(fresh_row(l).rows.drop_last() =~= l.rows);
    assert(row_ink(Seq::empty()) =~= Seq::<char>::empty());
    assert(rows_ink(fresh_row(l).rows) =~= rows_ink(l.rows));
}

proof fn lemma_put_ink(l: Layout, text: Seq<char>, tone: Tone)
    requires
        l.rows.len() > 0,
    ensures
        rows_ink(put(l, text, tone).rows) == rows_ink(l.rows) + without_spaces(text),
{
    let p = put(l, text, tone);
    let row = l.rows.last().push(span_of(text, tone));
    assert(row.drop_last() =~= l.rows.last());
    assert(p.rows.drop_last() =~= l.rows.drop_last());
    assert(rows_ink(p.rows) =~= rows_ink(l.rows) + without_spaces(text));
}

proof fn lemma_put_pieces_ink(l: Layout, text: Seq<char>, tone: Tone, width: nat)
    requires
        l.rows.len() > 0,
        width > 0,
    ensures
        put_pieces(l, text, tone, width).rows.len() > 0,
        rows_ink(put_pieces(l, text, tone, width).rows) == rows_ink(l.rows) + without_spaces(text),
    decreases text.len(),
{
    if text.len() == 0 {
        assert(rows_ink(l.rows) + without_spaces(text) =~= rows_ink(l.rows));
    } else {
        let n = if text.len() <= width {
            text.len()
        } else {
            width
        };
        let start = if l.col > 0 {
            fresh_row(l)
        } else {
            l
        };
        lemma_fresh_row_ink(l);
        lemma_put_ink(start, text.take(n as int), tone);
        lemma_put_pieces_ink(
            put(start, text.take(n as int), tone),
            text.skip(n as int),
            tone,
            width,
        );
        lemma_ink_of_sum(text.take(n as int), text.skip(n as int));
        assert(text.take(n as int) + text.skip(n as int) =~= text);
        assert(rows_ink(put_pieces(l, text, tone, width).rows) =~= rows_ink(l.rows)
            + without_spaces(text));
    }
}

proof fn lemma_laid_out_ink(tokens: Seq<Token>, width: nat)
    requires
        width > 0,
        forall|i: int| 0 <= i < tokens.len() ==> is_token(#[trigger] tokens[i]),
    ensures
        laid_out(tokens, width).rows.len() > 0,
        rows_ink(laid_out(tokens, width).rows) == tokens_ink(tokens),
    decreases tokens.len(),
{
    if tokens.len() == 0 {
        let rows = empty_layout().rows;
        assert(rows.drop_last() =~= Seq::empty());
        assert(rows_ink(rows.drop_last()) =~= Seq::<char>::empty());
        assert(row_ink(rows.last()) =~= Seq::<char>::empty());
        assert(rows_ink(rows) =~= Seq::<char>::empty());
    } else {
        lemma_laid_out_ink(tokens.drop_last(), width);
        let l = laid_out(tokens.drop_last(), width);
        let t = tokens.last();
        assert(is_token(tokens[tokens.len() - 1]));
        lemma_fresh_row_ink(l);
        if t.space {
            assert(t.text.drop_last() =~= Seq::empty());
            assert(without_spaces(t.text.drop_last()) =~= Seq::<char>::empty());
            assert(without_spaces(t.text) =~= Seq::<char>::empty());
            lemma_put_ink(l, t.text, t.tone);
            assert(tokens_ink(tokens) =~= tokens_ink(tokens.drop_last()));
            assert(rows_ink(l.rows) + without_spaces(t.text) =~= rows_ink(l.rows));
        } else if t.text.len() > width {
            lemma_put_pieces_ink(l, t.text, t.tone, width);
        } else if l.col > 0 && l.col + t.text.len() > width {
            lemma_put_ink(fresh_row(l), t.text, t.tone);
        } else {
            lemma_put_ink(l, t.text, t.tone);
        }
    }
}

proof fn lemma_scanned_ink(s: Seq<char>, tone: Tone)
    ensures
        tokens_ink(text_tokens(s, tone)) == without_spaces(s),
        tokens_ink(scanned(s, tone).0) + scanned(s, tone).1 == without_spaces(s),
    decreases s.len(),
{
    lemma_tokens_are_words_or_spaces(s, tone);
    let (tokens, word) = scanned(s, tone);
    lemma_word_is_its_ink(word);
    if s.len() > 0 {
        lemma_scanned_ink(s.drop_last(), tone);
        let (t0, w0) = scanned(s.drop_last(), tone);
        lemma_tokens_are_words_or_spaces(s.drop_last(), tone);
        lemma_word_is_its_ink(w0);
        if s.last() == ' ' {
            let f = flushed(t0, w0, tone);
            lemma_flushed_ink(t0, w0, tone);
            assert(f.push(space_token(tone)).drop_last() =~= f);
            reveal_strlit(" ");
            assert(" "@ =~= seq![' ']);
            assert(seq![' '].drop_last() =~= Seq::empty());
            assert(without_spaces(seq![' '].drop_last()) =~= Seq::<char>::empty());
            assert(without_spaces(seq![' ']) =~= Seq::<char>::empty());
            assert(tokens_ink(tokens) =~= tokens_ink(f));
            assert(tokens_ink(tokens) + word =~= without_spaces(s));
        } else {
            assert(tokens_ink(tokens) + word =~= without_spaces(s));
        }
    } else {
        assert(tokens_ink(tokens) + word =~= without_spaces(s));
    }
    lemma_flushed_ink(tokens, word, tone);
}

proof fn lemma_flushed_ink(tokens: Seq<Token>, word: Seq<char>, tone: Tone)
    requires
        !word.contains(' '),
    ensures
        tokens_ink(flushed(tokens, word, tone)) == tokens_ink(tokens) + word,
{
    lemma_word_is_its_ink(word);
    if word.len() > 0 {
        let f = flushed(tokens, word, tone);
        assert(f.drop_last() =~= tokens);
    } else {
        assert(tokens_ink(tokens) + word =~= tokens_ink(tokens));
    }
}

proof fn lemma_word_is_its_ink(word: Seq<char>)
    requires
        !word.contains(' '),
    ensures
        without_spaces(word) == word,
    decreases word.len(),
{
    if word.len() > 0 {
        assert(word.contains(word[word.len() - 1]));
        assert forall|i: int| 0 <= i < word.drop_last().len() implies #[trigger] word.drop_last()[i]
            != ' ' by {
            assert(word.contains(word[i]));
        }
        lemma_word_is_its_ink(word.drop_last());
        assert(word.drop_last().push(word.last()) =~= word);
    } else {
        assert(without_spaces(word) =~= word);
    }
}

proof fn lemma_tokens_ink_of_sum(a: Seq<Token>, b: Seq<Token>)
    ensures
        tokens_ink(a + b) == tokens_ink(a) + tokens_ink(b),
    decreases b.len(),
{
    if b.len() == 0 {
        assert(a + b =~= a);
        assert(tokens_ink(a) + tokens_ink(b) =~= tokens_ink(a));
    } else {
        lemma_tokens_ink_of_sum(a, b.drop_last());
        assert((a + b).drop_last() =~= a + b.drop_last());
        assert(tokens_ink(a + b) =~= tokens_ink(a) + tokens_ink(b));
    }
}

proof fn lemma_line_ink(line: Seq<SpanView>)
    ensures
        tokens_ink(line_tokens(line)) == row_ink(line),
    decreases line.len(),
{
    if line.len() > 0 {
        lemma_line_ink(line.drop_last());
        let last = line.last();
        lemma_scanned_ink(last.content, last.tone);
        lemma_tokens_ink_of_sum(
            line_tokens(line.drop_last()),
            text_tokens(last.content, last.tone),
        );
    }
}

/// Wrapping loses nothing but spaces: what stands on the rows is, apart from
/// these, what stood on the line, in its order.
pub proof fn wrapping_loses_nothing_but_spaces(line: Seq<SpanView>, width: usize)
    ensures
        rows_ink(wrapped_rows(line, width)) == row_ink(line),
{
    lemma_line_tokens(line);
    lemma_laid_out_ink(line_tokens(line), usable_width(width));
    lemma_line_ink(line);
}

/// The characters of a text, each with its tone.
pub open spec fn toned(s: Seq<char>, tone: Tone) -> Seq<(char, Tone)> {
    s.map_values(|c: char| (c, tone))
}

/// The characters of a row, each with its tone.
pub open spec fn toned_row(row: Seq<SpanView>) -> Seq<(char, Tone)>
    decreases row.len(),
{
    if row.len() == 0 {
        Seq::empty()
    } else {
        toned_row(row.drop_last()) + toned(row.last().content, row.last().tone)
    }
}

/// Tokens as the pieces of one row.
pub open spec fn token_spans(tokens: Seq<Token>) -> Seq<SpanView> {
    tokens.map_values(|t: Token| span_of(t.text, t.tone))
}

proof fn lemma_toned_row_of_sum(a: Seq<SpanView>, b: Seq<SpanView>)
    ensures
        toned_row(a + b) == toned_row(a) + toned_row(b),
    decreases b.len(),
{
    if b.len() == 0 {
        assert(a + b =~= a);
        assert(toned_row(a) + toned_row(b) =~= toned_row(a));
    } else {
        lemma_toned_row_of_sum(a, b.drop_last());
        assert((a + b).drop_last() =~= a + b.drop_last());
        assert(toned_row(a + b) =~= toned_row(a) + toned_row(b));
    }
}

proof fn lemma_row_width_is_its_characters(row: Seq<SpanView>)
    ensures
        row_width(row) == toned_row(row).len(),
    decreases row.len(),
{
    if row.len() > 0 {
        lemma_row_width_is_its_characters(row.drop_last());
    }
}

proof fn lemma_flushed_toned(tokens: Seq<Token>, word: Seq<char>, tone: Tone)
    ensures
        toned_row(token_spans(flushed(tokens, word, tone))) == toned_row(token_spans(tokens))
            + toned(word, tone),
{
    if word.len() == 0 {
        assert(toned_row(token_spans(tokens)) + toned(word, tone) =~= toned_row(
            token_spans(tokens),
        ));
    } else {
        let f = flushed(tokens, word, tone);
        assert(token_spans(f).drop_last() =~= token_spans(tokens));
        assert(token_spans(f).last() == span_of(word, tone));
    }
}

proof fn lemma_scanned_toned(s: Seq<char>, tone: Tone)
    ensures
        toned_row(token_spans(scanned(s, tone).0)) + toned(scanned(s, tone).1, tone) == toned(
            s,
            tone,
        ),
    decreases s.len(),
{
    let (tokens, word) = scanned(s, tone);
    if s.len() == 0 {
        assert(token_spans(tokens) =~= Seq::<SpanView>::empty());
        assert(toned_row(token_spans(tokens)) + toned(word, tone) =~= toned(s, tone));
    } else {
        lemma_scanned_toned(s.drop_last(), tone);
        let (t0, w0) = scanned(s.drop_last(), tone);
        if s.last() == ' ' {
            let f = flushed(t0, w0, tone);
            lemma_flushed_toned(t0, w0, tone);
            reveal_strlit(" ");
            assert(" "@ =~= seq![' ']);
            assert(token_spans(tokens).drop_last() =~= token_spans(f));
            assert(token_spans(tokens).last() == span_of(" "@, tone));
            assert(toned(" "@, tone) =~= seq![(' ', tone)]);
            assert(toned_row(token_spans(tokens)) == toned(s.drop_last(), tone) + toned(
                " "@,
                tone,
            ));
            assert(toned(word, tone) =~= Seq::<(char, Tone)>::empty());
        } else {
            assert(toned(word, tone) =~= toned(w0, tone).push((s.last(), tone)));
        }
        assert(toned(s, tone) =~= toned(s.drop_last(), tone).push((s.last(), tone)));
        assert(toned_row(token_spans(tokens)) + toned(word, tone) =~= toned(s, tone));
    }
}

proof fn lemma_line_tokens_toned(line: Seq<SpanView>)
    ensures
        toned_row(token_spans(line_tokens(line))) == toned_row(line),
    decreases line.len(),
{
    if line.len() == 0 {
        assert(token_spans(line_tokens(line)) =~= line);
    } else {
        let last = line.last();
        let head = line_tokens(line.drop_last());
        let tail = text_tokens(last.content, last.tone);
        lemma_line_tokens_toned(line.drop_last());
        lemma_scanned_toned(last.content, last.tone);
        let (tokens, word) = scanned(last.content, last.tone);
        lemma_flushed_toned(tokens, word, last.tone);
        lemma_toned_row_of_sum(token_spans(head), token_spans(tail));
        assert(token_spans(head + tail) =~= token_spans(head) + token_spans(tail));
    }
}

proof fn lemma_fitting_tokens_stay(tokens: Seq<Token>, width: nat)
    requires
        forall|i: int| 0 <= i < tokens.len() ==> is_token(#[trigger] tokens[i]),
        row_width(token_spans(tokens)) <= width,
    ensures
        laid_out(tokens, width).rows == seq![token_spans(tokens)],
        laid_out(tokens, width).col == row_width(token_spans(tokens)),
        tokens.len() > 0 ==> laid_out(tokens, width).col > 0,
    decreases tokens.len(),
{
    if tokens.len() == 0 {
        assert(token_spans(tokens) =~= Seq::<SpanView>::empty());
        assert(laid_out(tokens, width).rows =~= seq![token_spans(tokens)]);
    } else {
        let rest = tokens.drop_last();
        let t = tokens.last();
        assert(is_token(tokens[tokens.len() - 1]));
        assert forall|i: int| 0 <= i < rest.len() implies is_token(#[trigger] rest[i]) by {
            assert(rest[i] == tokens[i]);
        }
        assert(token_spans(tokens).drop_last() =~= token_spans(rest));
        assert(token_spans(tokens).last() == span_of(t.text, t.tone));
        lemma_fitting_tokens_stay(rest, width);
        let l = laid_out(rest, width);
        assert(laid_out(tokens, width) == put(l, t.text, t.tone));
        assert(token_spans(tokens) =~= token_spans(rest).push(span_of(t.text, t.tone)));
        assert(laid_out(tokens, width).rows =~= seq![token_spans(tokens)]);
    }
}

/// A line that fits stays on one row, every character of it, spaces included,
/// with the tone that it had.
pub proof fn a_line_that_fits_stays_on_one_row(line: Seq<SpanView>, width: usize)
    requires
        row_width(line) <= usable_width(width),
    ensures
        wrapped_rows(line, width).len() == 1,
        toned_row(wrapped_rows(line, width)[0]) == toned_row(line),
{
    let tokens = line_tokens(line);
    lemma_line_tokens(line);
    lemma_line_tokens_toned(line);
    lemma_row_width_is_its_characters(line);
    lemma_row_width_is_its_characters(token_spans(tokens));
    lemma_fitting_tokens_stay(tokens, usable_width(width));
}

/// The characters of one, two or three pieces stand one behind the other.
pub proof fn pieces_stand_one_behind_the_other(a: SpanView, b: SpanView, c: SpanView)
    ensures
        ink(seq![a]) == a.content,
        ink(seq![a, b]) == a.content + b.content,
        ink(seq![a, b, c]) == a.content + b.content + c.content,
        ink(Seq::empty()).len() == 0,
{
    let none = Seq::<SpanView>::empty();
    assert(seq![a].drop_last() =~= none);
    assert(seq![a, b].drop_last() =~= seq![a]);
    assert(seq![a, b, c].drop_last() =~= seq![a, b]);
    assert(ink(none) + a.content =~= a.content);
    assert(ink(seq![a]) == ink(none) + a.content);
    assert(seq![a, b].last() == b);
    assert(ink(seq![a, b]) == ink(seq![a]) + b.content);
    assert(seq![a, b, c].last() == c);
    assert(ink(seq![a, b, c]) == ink(seq![a, b]) + c.content);
}

/// The characters of a row.
pub open spec fn ink(row: Seq<SpanView>) -> Seq<char>
    decreases row.len(),
{
    if row.len() == 0 {
        Seq::empty()
    } else {
        ink(row.drop_last()) + row.last().content
    }
}

/// The characters of two rows' pieces on one row stand one behind the other.
pub proof fn rows_of_pieces_join(a: Seq<SpanView>, b: Seq<SpanView>)
    ensures
        ink(a + b) == ink(a) + ink(b),
    decreases b.len(),
{
    if b.len() == 0 {
        assert(a + b =~= a);
        assert(ink(a) + ink(b) =~= ink(a));
    } else {
        rows_of_pieces_join(a, b.drop_last());
        assert((a + b).drop_last() =~= a + b.drop_last());
        assert(ink(a + b) =~= ink(a) + ink(b));
    }
}

/// The characters of a row are the same whatever tones they have.
pub proof fn tones_do_not_change_the_text(row: Seq<SpanView>)
    ensures
        ink(row).len() == toned_row(row).len(),
        forall|i: int| 0 <= i < ink(row).len() ==> #[trigger] ink(row)[i] == toned_row(row)[i].0,
    decreases row.len(),
{
    if row.len() > 0 {
        tones_do_not_change_the_text(row.drop_last());
        assert forall|i: int| 0 <= i < ink(row).len() implies #[trigger] ink(row)[i] == toned_row(
            row,
        )[i].0 by {
            let n = ink(row.drop_last()).len();
            if i < n {
                assert(ink(row)[i] == ink(row.drop_last())[i]);
                assert(toned_row(row)[i] == toned_row(row.drop_last())[i]);
            }
        }
    }
}

/// A word stands on the row that is being filled where it fits there, and
/// starts the next one where it does not; one that fits on no row is cut into
/// pieces of a row each, and a space that would start a row is dropped.
pub proof fn a_word_stands_where_it_fits(l: Layout, text: Seq<char>, tone: Tone, width: nat)
    requires
        text.len() > 0,
        width > 0,
    ensures
        ({
            let word = Token { text, tone, space: false };
            &&& l.col + text.len() <= width ==> placed(l, word, false, width) == put(l, text, tone)
            &&& l.col > 0 && l.col + text.len() > width && text.len() <= width ==> placed(
                l,
                word,
                false,
                width,
            ) == put(fresh_row(l), text, tone)
            &&& text.len() > width && l.col == 0 ==> placed(l, word, false, width) == put_pieces(
                put(l, text.take(width as int), tone),
                text.skip(width as int),
                tone,
                width,
            )
        }),
        ({
            let space = Token { text: seq![' '], tone, space: true };
            &&& l.col == 0 ==> placed(l, space, false, width) == l
            &&& l.col == 0 ==> placed(l, space, true, width) == put(l, seq![' '], tone)
            &&& 0 < l.col < width ==> placed(l, space, false, width) == put(l, seq![' '], tone)
            &&& l.col == width ==> placed(l, space, false, width) == fresh_row(l)
        }),
        put(l, text, tone).col == l.col + text.len(),
        fresh_row(l).col == 0,
        fresh_row(l).rows == l.rows.push(Seq::empty()),
{
}

} // verus!
