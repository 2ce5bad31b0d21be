//! What the conversation screen shows, as rows of styled text.

use vstd::prelude::*;
use vstd::string::*;

use crate::offsets::{can_cut, char_index, cut, total_width};
use crate::text::{
    chars_of, concat2, concat3, lines, opt_view, repeat, repeat_char, split, split_chars, string_of,
    strip_prefix, strip_prefix_chars, trim, trim_chars, trim_end, trim_end_chars, views,
};
use crate::tui::rows::{
    append_rows, clone_span, ink, line_views, one_span, pieces_stand_one_behind_the_other,
    plain_row, push_row, push_span, row_of, row_views, row_width, rows_of_pieces_join, span, span_of, span_views, wrap_styled, wrapped_rows, Row, RowView, Span,
    SpanView, Tone,
};
use crate::ui::pair_views;

verus! {

// ---------------------------------------------------------------------------
// The mark of a session
// ---------------------------------------------------------------------------

/// How many bits of a number are set.
pub open spec fn ones(n: nat) -> nat
    decreases n,
{
    if n == 0 {
        0
    } else {
        n % 2 + ones(n / 2)
    }
}

fn count_ones(n: u32) -> (r: u32)
    ensures
        r == ones(n as nat),
        r <= 32,
{
    let mut rest: u32 = n;
    let mut count: u32 = 0;
    let mut steps: u32 = 0;
    assert(n <= 0xFFFF_FFFFu32 >> 0u32) by (bit_vector);
    while rest > 0
        invariant
            count + ones(rest as nat) == ones(n as nat),
            count <= steps <= 32,
            rest <= 0xFFFF_FFFFu32 >> steps,
        decreases rest,
    {
        assert(steps < 32 && rest / 2 <= 0xFFFF_FFFFu32 >> ((steps + 1) as u32)) by (bit_vector)
            requires
                rest > 0,
                steps <= 32,
                rest <= 0xFFFF_FFFFu32 >> steps,
        ;
        count = count + rest % 2;
        rest = rest / 2;
        steps = steps + 1;
    }
    count
}

/// Whether a braille pattern can be half of a mark: neither nearly empty nor
/// solid.
pub open spec fn is_mark_pattern(n: nat) -> bool {
    3 <= ones(n) <= 7
}

/// The patterns below `n` that can be half of a mark, in their order.
pub open spec fn mark_patterns(n: nat) -> Seq<nat>
    decreases n,
{
    if n == 0 {
        Seq::empty()
    } else {
        let before = mark_patterns((n - 1) as nat);
        if is_mark_pattern((n - 1) as nat) {
            before.push((n - 1) as nat)
        } else {
            before
        }
    }
}

fn all_mark_patterns() -> (r: Vec<u32>)
    ensures
        r@.len() == mark_patterns(256).len(),
        forall|i: int| 0 <= i < r@.len() ==> #[trigger] r@[i] == mark_patterns(256)[i],
        r@.len() > 0,
        forall|i: int| 0 <= i < r@.len() ==> #[trigger] r@[i] < 256,
{
    let mut out: Vec<u32> = Vec::new();
    let mut n: u32 = 0;
    while n < 256
        invariant
            n <= 256,
            out@.len() == mark_patterns(n as nat).len(),
            forall|i: int| 0 <= i < out@.len() ==> #[trigger] out@[i] == mark_patterns(n as nat)[i],
            forall|i: int| 0 <= i < out@.len() ==> #[trigger] out@[i] < 256,
            n > 7 ==> out@.len() > 0,
        decreases 256 - n,
    {
        let bits: u32 = count_ones(n);
        proof {
            if n == 7 {
                reveal_with_fuel(ones, 5);
                assert(ones(7) == 3);
            }
        }
        if 3 <= bits && bits <= 7 {
            out.push(n);
        }
        n = n + 1;
    }
    out
}

/// The FNV-1a hash of bytes, in 64 bits.
pub open spec fn fnv(bytes: Seq<u8>) -> u64
    decreases bytes.len(),
{
    if bytes.len() == 0 {
        0xcbf2_9ce4_8422_2325
    } else {
        (((fnv(bytes.drop_last()) ^ (bytes.last() as u64)) as int * 0x0000_0100_0000_01b3)
            % 0x1_0000_0000_0000_0000) as u64
    }
}

fn hash_of(bytes: &[u8]) -> (r: u64)
    ensures
        r == fnv(bytes@),
{
    let mut hash: u64 = 0xcbf2_9ce4_8422_2325;
    let mut i: usize = 0;
    while i < bytes.len()
        invariant
            i <= bytes@.len(),
            hash == fnv(bytes@.take(i as int)),
        decreases bytes@.len() - i,
    {
        assert(bytes@.take(i + 1).drop_last() =~= bytes@.take(i as int));
        let mixed: u64 = hash ^ (bytes[i] as u64);
        hash = mixed.wrapping_mul(0x0000_0100_0000_01b3);
        i = i + 1;
    }
    assert(bytes@.take(i as int) =~= bytes@);
    hash
}

/// `char::from_u32`: the character with a code, where there is one.
pub assume_specification[ char::from_u32 ](code: u32) -> (r: Option<char>)
    ensures
        r is Some <==> vstd::utf8::is_scalar(code),
        r matches Some(c) ==> c as u32 == code,
;

/// The braille character of the pattern that a number picks.
pub open spec fn half_mark(bits: nat) -> char {
    let patterns = mark_patterns(256);
    ((0x2800 + patterns[(bits % patterns.len()) as int]) as u32) as char
}

fn half(bits: u64, patterns: &Vec<u32>) -> (r: char)
    requires
        patterns@.len() == mark_patterns(256).len(),
        patterns@.len() > 0,
        forall|i: int| 0 <= i < patterns@.len() ==> #[trigger] patterns@[i] == mark_patterns(256)[i],
        forall|i: int| 0 <= i < patterns@.len() ==> #[trigger] patterns@[i] < 256,
    ensures
        r == half_mark(bits as nat),
{
    let count: u64 = patterns.len() as u64;
    let k: usize = (bits % count) as usize;
    let code: u32 = 0x2800 + patterns[k];
    assert(patterns@[k as int] == mark_patterns(256)[k as int]);
    match char::from_u32(code) {
        Some(c) => {
            proof {
                vstd::utf8::char_u32_cast(c, code);
            }
            c
        },
        None => {
            assert(vstd::utf8::is_scalar(code));
            '?'
        },
    }
}

/// The colours that marks have: indices of the 256-colour palette.
pub open spec fn mark_colour(k: int) -> u8 {
    if k == 0 {
        33
    } else if k == 1 {
        30
    } else if k == 2 {
        70
    } else if k == 3 {
        61
    } else if k == 4 {
        96
    } else if k == 5 {
        100
    } else if k == 6 {
        130
    } else if k == 7 {
        133
    } else if k == 8 {
        136
    } else if k == 9 {
        166
    } else if k == 10 {
        172
    } else {
        25
    }
}

fn colour_at(k: u64) -> (r: u8)
    ensures
        r == mark_colour(k as int),
{
    match k {
        0 => 33,
        1 => 30,
        2 => 70,
        3 => 61,
        4 => 96,
        5 => 100,
        6 => 130,
        7 => 133,
        8 => 136,
        9 => 166,
        10 => 172,
        _ => 25,
    }
}

/// The mark of a session: two braille characters, chosen by a hash of its id.
pub open spec fn mark_text(seed: Seq<char>) -> Seq<char> {
    let hash = fnv(vstd::utf8::encode_utf8(seed));
    seq![half_mark(hash as nat), half_mark((hash >> 12) as nat)]
}

/// The colour of a session's mark.
pub open spec fn mark_tone(seed: Seq<char>) -> u8 {
    mark_colour((fnv(vstd::utf8::encode_utf8(seed)) >> 24) as int % 12)
}

/// The mark of a session and its colour: always the same for the same id.
pub fn identicon(seed: &str) -> (r: (String, u8))
    ensures
        r.0@ == mark_text(seed@),
        r.1 == mark_tone(seed@),
{
    let hash: u64 = hash_of(seed.as_bytes());
    let patterns: Vec<u32> = all_mark_patterns();
    let mut mark: String = String::new();
    mark.push(half(hash, &patterns));
    mark.push(half(hash >> 12, &patterns));
    assert(mark@ =~= mark_text(seed@));
    (mark, colour_at((hash >> 24) % 12))
}

proof fn lemma_mark_patterns(n: nat)
    ensures
        forall|i: int|
            0 <= i < mark_patterns(n).len() ==> is_mark_pattern(#[trigger] mark_patterns(n)[i])
                && mark_patterns(n)[i] < n,
        n > 7 ==> mark_patterns(n).len() > 0,
    decreases n,
{
    if n > 0 {
        let before = mark_patterns((n - 1) as nat);
        lemma_mark_patterns((n - 1) as nat);
        assert forall|i: int| 0 <= i < mark_patterns(n).len() implies is_mark_pattern(
            #[trigger] mark_patterns(n)[i],
        ) && mark_patterns(n)[i] < n by {
            if i < before.len() {
                assert(mark_patterns(n)[i] == before[i]);
            }
        }
        if n == 8 {
            reveal_with_fuel(ones, 5);
            assert(ones(7) == 3);
        }
    }
}

/// A mark is two braille patterns of three to seven dots each.
pub proof fn a_mark_is_two_braille_patterns(seed: Seq<char>)
    ensures
        mark_text(seed).len() == 2,
        forall|i: int|
            0 <= i < 2 ==> 0x2800 <= (#[trigger] mark_text(seed)[i]) as u32 && (mark_text(
                seed,
            )[i] as u32) < 0x2900 && is_mark_pattern(
                ((mark_text(seed)[i] as u32) - 0x2800) as nat,
            ),
{
    lemma_mark_patterns(256);
    let hash = fnv(vstd::utf8::encode_utf8(seed));
    lemma_half_mark(hash as nat);
    lemma_half_mark((hash >> 12) as nat);
}

proof fn lemma_half_mark(bits: nat)
    ensures
        0x2800 <= half_mark(bits) as u32,
        (half_mark(bits) as u32) < 0x2900,
        is_mark_pattern(((half_mark(bits) as u32) - 0x2800) as nat),
{
    lemma_mark_patterns(256);
    let patterns = mark_patterns(256);
    let k = (bits % patterns.len()) as int;
    assert(0 <= k < patterns.len()) by (nonlinear_arith)
        requires
            k == bits % patterns.len(),
            patterns.len() > 0,
    ;
    assert(is_mark_pattern(patterns[k]) && patterns[k] < 256);
}

// ---------------------------------------------------------------------------
// Small texts
// ---------------------------------------------------------------------------

/// A path with the home directory shown as `~`.
pub open spec fn home_relative_text(dir: Seq<char>, home: Option<Seq<char>>) -> Seq<char> {
    match home {
        Some(h) => match strip_prefix(dir, h) {
            Some(rest) => "~"@ + rest,
            None => dir,
        },
        None => dir,
    }
}

/// A path with the home directory, where that is known, shown as `~`.
pub fn home_relative(dir: &str, home: &Option<String>) -> (r: String)
    ensures
        r@ == home_relative_text(dir@, opt_view(*home)),
{
    match home {
        Some(h) => {
            let chars: Vec<char> = chars_of(dir);
            match strip_prefix_chars(&chars, h) {
                Some(rest) => concat2("~", &string_of(rest)),
                None => String::from_str(dir),
            }
        },
        None => String::from_str(dir),
    }
}

/// A text with spaces for its line feeds.
pub open spec fn one_line(s: Seq<char>) -> Seq<char> {
    s.map_values(|c: char| if c == '\n' { ' ' } else { c })
}

/// A text on one line, at most `width` characters: where it is longer, an
/// ellipsis takes the place of the last one kept.
pub open spec fn clipped(s: Seq<char>, width: nat) -> Seq<char> {
    let flat = one_line(s);
    if flat.len() <= width {
        flat
    } else if width == 0 {
        Seq::empty()
    } else {
        flat.take(width - 1).push('\u{2026}')
    }
}

/// A text on one line, cut to a width.
pub fn clip(text: &str, width: usize) -> (r: String)
    ensures
        r@ == clipped(text@, width as nat),
{
    let chars: Vec<char> = chars_of(text);
    let mut flat: Vec<char> = Vec::new();
    let mut i: usize = 0;
    while i < chars.len()
        invariant
            i <= chars@.len(),
            flat@ == one_line(chars@.take(i as int)),
        decreases chars@.len() - i,
    {
        let c: char = chars[i];
        flat.push(if c == '\n' { ' ' } else { c });
        assert(flat@ =~= one_line(chars@.take(i + 1)));
        i = i + 1;
    }
    assert(chars@.take(i as int) =~= text@);
    if flat.len() <= width {
        return string_of(&flat);
    }
    if width == 0 {
        return String::new();
    }
    let kept: &[char] = vstd::slice::slice_subrange(&flat, 0, width - 1);
    assert(kept@ =~= flat@.take(width - 1));
    let mut out: String = string_of(kept);
    out.push('\u{2026}');
    out
}

/// A clipped text never exceeds its limit, and one that fits is only put on
/// one line.
pub proof fn a_clipped_text_fits(s: Seq<char>, width: nat)
    ensures
        clipped(s, width).len() <= width,
        s.len() <= width ==> clipped(s, width) == one_line(s),
        s.len() > width && width > 0 ==> clipped(s, width).len() == width,
{
}

/// How tall the box of waiting messages is: its rows, at most five and one for
/// the rest, its borders and a gap; nothing where none wait.
pub open spec fn pending_rows_count(waiting: nat) -> nat {
    if waiting == 0 {
        0
    } else if waiting <= 5 {
        waiting + 3
    } else {
        9
    }
}

/// How tall the box of waiting messages is.
pub fn pending_height(waiting: usize) -> (r: u16)
    ensures
        r == pending_rows_count(waiting as nat),
{
    if waiting == 0 {
        0
    } else if waiting <= 5 {
        waiting as u16 + 3
    } else {
        9
    }
}

/// How tall the approval box is, for a request that takes so many rows: twelve
/// at most, and borders and a gap.
pub fn approval_height(wrapped: u16) -> (r: u16)
    ensures
        r == if wrapped < 12 {
            wrapped + 3
        } else {
            15
        },
{
    if wrapped < 12 {
        wrapped + 3
    } else {
        15
    }
}

/// How tall the box of a command is: the command's row and those of its
/// output, if it has finished; twelve at most, and borders and a gap.
pub fn shell_height(output_rows: Option<u16>) -> (r: u16)
    ensures
        r == match output_rows {
            None => 4int,
            Some(n) => if n < 11 {
                n + 4
            } else {
                15int
            },
        },
{
    match output_rows {
        None => 4,
        Some(n) => if n < 11 {
            n + 4
        } else {
            15
        },
    }
}

/// How many rows the input gets: as many as it needs, ten at most, and never
/// so many that the conversation has nowhere to go; one at least.
pub open spec fn input_height_value(content_rows: int, height: int, taken: int) -> int {
    let wanted = if content_rows < 1 {
        1
    } else if content_rows > 10 {
        10
    } else {
        content_rows
    };
    let room = if height - (7 + taken) < 1 {
        1
    } else {
        height - (7 + taken)
    };
    if wanted < room {
        wanted
    } else {
        room
    }
}

/// How many rows the input gets, where the other boxes take so many.
pub fn input_height(content_rows: u16, height: u16, pending: u16, approval: u16, shell: u16) -> (r:
    u16)
    ensures
        r == input_height_value(
            content_rows as int,
            height as int,
            pending + approval + shell,
        ),
        1 <= r <= 10,
{
    let wanted: u32 = if content_rows < 1 {
        1
    } else if content_rows > 10 {
        10
    } else {
        content_rows as u32
    };
    let reserve: u32 = 7 + pending as u32 + approval as u32 + shell as u32;
    let room: u32 = if height as u32 <= reserve {
        1
    } else {
        height as u32 - reserve
    };
    if wanted < room {
        wanted as u16
    } else {
        room as u16
    }
}

/// Where the view of a transcript starts, and whether it has been scrolled
/// away from its end. `scroll_back` counts up from there.
pub fn scroll_offset(total: u16, visible: u16, scroll_back: u16) -> (r: (u16, bool))
    ensures
        ({
            let max = if total > visible {
                total - visible
            } else {
                0int
            };
            &&& r.0 == if scroll_back < max {
                max - scroll_back
            } else {
                0
            }
            &&& r.1 == (scroll_back != 0 && max > 0)
        }),
{
    let max: u16 = if total > visible {
        total - visible
    } else {
        0
    };
    let offset: u16 = if scroll_back < max {
        max - scroll_back
    } else {
        0
    };
    (offset, scroll_back != 0 && max > 0)
}

/// How many blank rows stand above a transcript that does not fill its pane.
pub fn padding_above(total: u16, visible: u16) -> (r: u16)
    ensures
        r == if total < visible {
            visible - total
        } else {
            0
        },
{
    if total < visible {
        visible - total
    } else {
        0
    }
}

// ---------------------------------------------------------------------------
// The input box
// ---------------------------------------------------------------------------

/// The rows that a text takes in the input box: a line feed starts a row, and
/// so does filling one.
pub open spec fn typed_rows(s: Seq<char>, width: nat) -> Seq<Seq<char>>
    decreases s.len(),
{
    if s.len() == 0 {
        seq![Seq::empty()]
    } else {
        let before = typed_rows(s.drop_last(), width);
        if s.last() == '\n' {
            before.push(Seq::empty())
        } else {
            let row = before.last().push(s.last());
            let rows = before.drop_last().push(row);
            if row.len() == width {
                rows.push(Seq::empty())
            } else {
                rows
            }
        }
    }
}

pub open spec fn box_width(width: u16) -> nat {
    if width == 0 {
        1
    } else {
        width as nat
    }
}

/// The rows that the input takes in a box of a width.
pub fn input_lines(input: &str, width: u16) -> (r: Vec<String>)
    ensures
        crate::text::string_views(r@) == typed_rows(input@, box_width(width)),
{
    let width: usize = if width == 0 {
        1
    } else {
        width as usize
    };
    let chars: Vec<char> = chars_of(input);
    let mut rows: Vec<String> = Vec::new();
    let mut row: Vec<char> = Vec::new();
    let mut i: usize = 0;
    assert(chars@.take(0) =~= Seq::<char>::empty());
    assert(crate::text::string_views(rows@).push(row@) =~= typed_rows(chars@.take(0), width as nat));
    while i < chars.len()
        invariant
            i <= chars@.len(),
            crate::text::string_views(rows@).push(row@) == typed_rows(
                chars@.take(i as int),
                width as nat,
            ),
        decreases chars@.len() - i,
    {
        let ghost done = crate::text::string_views(rows@);
        assert(chars@.take(i + 1).drop_last() =~= chars@.take(i as int));
        assert(done.push(row@).drop_last() =~= done);
        if chars[i] == '\n' {
            let text: String = string_of(&row);
            rows.push(text);
            assert(crate::text::string_views(rows@) =~= done.push(row@));
            row = Vec::new();
            assert(row@ =~= Seq::<char>::empty());
        } else {
            row.push(chars[i]);
            if row.len() == width {
                let text: String = string_of(&row);
                rows.push(text);
                assert(crate::text::string_views(rows@) =~= done.push(row@));
                row = Vec::new();
                assert(row@ =~= Seq::<char>::empty());
            }
        }
        i = i + 1;
    }
    assert(chars@.take(i as int) =~= input@);
    let ghost done = crate::text::string_views(rows@);
    let text: String = string_of(&row);
    rows.push(text);
    assert(crate::text::string_views(rows@) =~= done.push(row@));
    rows
}

/// Where the caret is, in the rows of the text in front of it: on the last one
/// and behind all that stands there. A caret behind the end is at the end.
pub fn input_cursor(input: &str, cursor: usize, width: u16) -> (r: (u16, u16))
    requires
        can_cut(input@, cursor as nat),
    ensures
        ({
            let before = typed_rows(cut(input@, cursor as nat), box_width(width));
            &&& r.0 == (before.len() - 1) as u16
            &&& r.1 == before.last().len() as u16
        }),
{
    let width: usize = if width == 0 {
        1
    } else {
        width as usize
    };
    let chars: Vec<char> = chars_of(input);
    let total: usize = total_width(input);
    let at: usize = if cursor < total {
        cursor
    } else {
        total
    };
    let k: usize = char_index(&chars, at);
    let mut row: usize = 0;
    let mut col: usize = 0;
    let mut i: usize = 0;
    assert(chars@.take(0) =~= Seq::<char>::empty());
    while i < k
        invariant
            i <= k <= chars@.len(),
            width > 0,
            row <= i,
            typed_rows(chars@.take(i as int), width as nat).len() == row + 1,
            typed_rows(chars@.take(i as int), width as nat).last().len() == col,
            col < width,
        decreases k - i,
    {
        assert(chars@.take(i + 1).drop_last() =~= chars@.take(i as int));
        if chars[i] == '\n' {
            row = row + 1;
            col = 0;
        } else {
            col = col + 1;
            if col == width {
                row = row + 1;
                col = 0;
            }
        }
        i = i + 1;
    }
    (
        #[verifier::truncate]
        (row as u16),
        #[verifier::truncate]
        (col as u16),
    )
}

/// The caret lies in the rows that the box draws: what stands in front of it
/// takes the same rows in the whole input, and the caret's row there starts
/// with what stands in front of the caret.
pub proof fn the_caret_lies_in_the_rows_drawn(s: Seq<char>, k: int, width: nat)
    requires
        0 <= k <= s.len(),
    ensures
        ({
            let before = typed_rows(s.take(k), width);
            let all = typed_rows(s, width);
            let row = before.len() - 1;
            &&& before.len() > 0
            &&& before.len() <= all.len()
            &&& forall|i: int| 0 <= i < row ==> #[trigger] all[i] == before[i]
            &&& before.last().len() <= all[row].len()
            &&& all[row].take(before.last().len() as int) == before.last()
        }),
    decreases s.len() - k,
{
    lemma_typed_rows_nonempty(s.take(k), width);
    if k == s.len() {
        assert(s.take(k) =~= s);
        let all = typed_rows(s, width);
        assert(all.last().take(all.last().len() as int) =~= all.last());
    } else {
        the_caret_lies_in_the_rows_drawn(s, k + 1, width);
        assert(s.take(k + 1).drop_last() =~= s.take(k));
        let before = typed_rows(s.take(k), width);
        let next = typed_rows(s.take(k + 1), width);
        let all = typed_rows(s, width);
        let row = before.len() - 1;
        assert(forall|i: int| 0 <= i < row ==> #[trigger] next[i] == before[i]);
        assert(next[row].take(before.last().len() as int) =~= before.last());
        if row < next.len() - 1 {
            assert(all[row] == next[row]);
        } else {
            let l = before.last().len() as int;
            assert(all[row].take(next.last().len() as int).take(l) =~= all[row].take(l));
        }
    }
}

proof fn lemma_typed_rows_nonempty(s: Seq<char>, width: nat)
    ensures
        typed_rows(s, width).len() > 0,
    decreases s.len(),
{
    if s.len() > 0 {
        lemma_typed_rows_nonempty(s.drop_last(), width);
    }
}

// ---------------------------------------------------------------------------
// Blocks of the transcript
// ---------------------------------------------------------------------------

/// The rows of several lines, each wrapped.
pub open spec fn all_wrapped(lines: Seq<Seq<SpanView>>, width: usize) -> Seq<Seq<SpanView>>
    decreases lines.len(),
{
    if lines.len() == 0 {
        Seq::empty()
    } else {
        all_wrapped(lines.drop_last(), width) + wrapped_rows(lines.last(), width)
    }
}

pub open spec fn opt_span(s: Option<Span>) -> Seq<SpanView> {
    match s {
        Some(x) => seq![x@],
        None => Seq::empty(),
    }
}

/// Rows with something in front of each: `prefix` on the first, `gutter` on
/// the others; and `trailing` behind the last.
pub open spec fn decorated(
    rows: Seq<Seq<SpanView>>,
    prefix: SpanView,
    gutter: SpanView,
    trailing: Seq<SpanView>,
) -> Seq<RowView> {
    Seq::new(
        rows.len(),
        |i: int|
            plain_row(
                seq![if i == 0 { prefix } else { gutter }] + rows[i] + if i == rows.len() - 1 {
                    trailing
                } else {
                    Seq::empty()
                },
            ),
    )
}

/// The rows of a block: its lines wrapped, or one empty row where it has none.
pub open spec fn rendered_rows(
    prefix: SpanView,
    lines: Seq<Seq<SpanView>>,
    trailing: Seq<SpanView>,
    width: usize,
    gutter: Seq<char>,
) -> Seq<RowView> {
    let shown = if lines.len() == 0 {
        seq![Seq::empty()]
    } else {
        lines
    };
    decorated(all_wrapped(shown, width), prefix, span_of(gutter, Tone::Plain), trailing)
}

fn decorate(
    rows: Vec<Vec<Span>>,
    prefix: &Span,
    gutter: &Span,
    trailing: &Option<Span>,
) -> (r: Vec<Row>)
    ensures
        row_views(r@) == decorated(line_views(rows@), prefix@, gutter@, opt_span(*trailing)),
{
    let mut out: Vec<Row> = Vec::new();
    let ghost all = line_views(rows@);
    let ghost target = decorated(all, prefix@, gutter@, opt_span(*trailing));
    let mut i: usize = 0;
    assert(row_views(out@) =~= target.take(0));
    while i < rows.len()
        invariant
            i <= rows@.len(),
            all == line_views(rows@),
            target == decorated(all, prefix@, gutter@, opt_span(*trailing)),
            row_views(out@) == target.take(i as int),
        decreases rows@.len() - i,
    {
        let mut spans: Vec<Span> = one_span(
            clone_span(
                if i == 0 {
                    prefix
                } else {
                    gutter
                },
            ),
        );
        let ghost head = span_views(spans@);
        assert(all[i as int] == span_views(rows@[i as int]@));
        let mut j: usize = 0;
        assert(span_views(spans@) =~= head + span_views(rows@[i as int]@).take(0));
        while j < rows[i].len()
            invariant
                i < rows@.len(),
                j <= rows@[i as int]@.len(),
                span_views(spans@) == head + span_views(rows@[i as int]@).take(j as int),
            decreases rows@[i as int]@.len() - j,
        {
            let s: Span = clone_span(&rows[i][j]);
            push_span(&mut spans, s);
            assert(span_views(spans@) =~= head + span_views(rows@[i as int]@).take(j + 1));
            j = j + 1;
        }
        assert(span_views(rows@[i as int]@).take(j as int) =~= all[i as int]);
        if i + 1 == rows.len() {
            match trailing {
                Some(t) => {
                    push_span(&mut spans, clone_span(t));
                },
                None => {},
            }
        }
        assert(plain_row(span_views(spans@)).spans =~= target[i as int].spans);
        push_row(&mut out, row_of(spans));
        assert(target.take(i + 1) =~= target.take(i as int).push(target[i as int]));
        i = i + 1;
    }
    assert(target.take(i as int) =~= target);
    out
}

/// The rows of a block whose lines have their looks already.
pub fn render_block(
    prefix: &Span,
    rendered: &Vec<Vec<Span>>,
    trailing: &Option<Span>,
    width: usize,
    gutter: &str,
) -> (r: Vec<Row>)
    ensures
        row_views(r@) == rendered_rows(
            prefix@,
            line_views(rendered@),
            opt_span(*trailing),
            width,
            gutter@,
        ),
{
    let mut rows: Vec<Vec<Span>> = Vec::new();
    let ghost all = line_views(rendered@);
    if rendered.len() == 0 {
        let empty: Vec<Span> = Vec::new();
        assert(span_views(empty@) =~= Seq::<SpanView>::empty());
        rows = wrap_styled(&empty, width);
        proof {
            let one: Seq<Seq<SpanView>> = seq![Seq::empty()];
            assert(one.drop_last() =~= Seq::empty());
            assert(all_wrapped(one.drop_last(), width) =~= Seq::empty());
            assert(all_wrapped(one, width) =~= line_views(rows@));
        }
    } else {
        let mut i: usize = 0;
        assert(line_views(rows@) =~= all_wrapped(all.take(0), width));
        while i < rendered.len()
            invariant
                i <= rendered@.len(),
                all == line_views(rendered@),
                line_views(rows@) == all_wrapped(all.take(i as int), width),
            decreases rendered@.len() - i,
        {
            let ghost before = rows@;
            let mut more: Vec<Vec<Span>> = wrap_styled(&rendered[i], width);
            let ghost added = more@;
            rows.append(&mut more);
            assert(line_views(rows@) =~= line_views(before) + line_views(added));
            assert(all.take(i + 1).drop_last() =~= all.take(i as int));
            assert(all.take(i + 1).last() == span_views(rendered@[i as int]@));
            i = i + 1;
        }
        assert(all.take(i as int) =~= all);
    }
    let gutter_span: Span = span(gutter, Tone::Plain);
    decorate(rows, prefix, &gutter_span, trailing)
}

/// The lines of a text in one look.
pub open spec fn toned_lines(pieces: Seq<Seq<char>>, tone: Tone) -> Seq<Seq<SpanView>> {
    pieces.map_values(|p: Seq<char>| seq![span_of(p, tone)])
}

pub(crate) fn tone_lines(pieces: &Vec<Vec<char>>, tone: Tone) -> (r: Vec<Vec<Span>>)
    ensures
        line_views(r@) == toned_lines(views(pieces@), tone),
{
    let mut out: Vec<Vec<Span>> = Vec::new();
    let ghost target = toned_lines(views(pieces@), tone);
    let mut i: usize = 0;
    assert(line_views(out@) =~= target.take(0));
    while i < pieces.len()
        invariant
            i <= pieces@.len(),
            target == toned_lines(views(pieces@), tone),
            line_views(out@) == target.take(i as int),
        decreases pieces@.len() - i,
    {
        let ghost before = line_views(out@);
        let line: Vec<Span> = one_span(Span { content: string_of(&pieces[i]), tone });
        out.push(line);
        assert(line_views(out@) =~= before.push(span_views(line@)));
        assert(target.take(i + 1) =~= before.push(target[i as int]));
        i = i + 1;
    }
    assert(target.take(i as int) =~= target);
    out
}

/// The rows of a text that is shown as it is.
pub open spec fn block_rows(
    prefix: SpanView,
    text: Seq<char>,
    trailing: Seq<SpanView>,
    width: usize,
) -> Seq<RowView> {
    rendered_rows(prefix, toned_lines(split(text, '\n'), Tone::Plain), trailing, width, "  "@)
}

/// The rows of a text that is shown as it is.
pub fn text_block(prefix: &Span, text: &[char], trailing: &Option<Span>, width: usize) -> (r: Vec<
    Row,
>)
    ensures
        row_views(r@) == block_rows(prefix@, text@, opt_span(*trailing), width),
{
    let pieces: Vec<Vec<char>> = split_chars(text, '\n');
    let rendered: Vec<Vec<Span>> = tone_lines(&pieces, Tone::Plain);
    render_block(prefix, &rendered, trailing, width, "  ")
}

/// The rows of a named value: what does not fit on the first stands under the
/// value, not under its name.
pub open spec fn labeled_rows(label: Seq<char>, value: Seq<char>, width: usize) -> Seq<RowView> {
    let room = if width > label.len() {
        (width - label.len()) as usize
    } else {
        1
    };
    decorated(
        wrapped_rows(seq![span_of(value, Tone::Plain)], room),
        span_of(label, Tone::DarkGray),
        span_of(repeat(' ', label.len()), Tone::Plain),
        Seq::empty(),
    )
}

/// The rows of a named value.
pub fn labeled_block(label: &str, value: &str, width: usize) -> (r: Vec<Row>)
    ensures
        row_views(r@) == labeled_rows(label@, value@, width),
{
    let label_width: usize = chars_of(label).len();
    let room: usize = if width > label_width {
        width - label_width
    } else {
        1
    };
    let line: Vec<Span> = one_span(span(value, Tone::Plain));
    let rows: Vec<Vec<Span>> = wrap_styled(&line, room);
    let gutter: Span = Span { content: repeat_char(' ', label_width), tone: Tone::Plain };
    let prefix: Span = span(label, Tone::DarkGray);
    let trailing: Option<Span> = None;
    decorate(rows, &prefix, &gutter, &trailing)
}

/// The rows of named values, one behind the other.
pub open spec fn field_blocks(fields: Seq<(Seq<char>, Seq<char>)>, width: usize) -> Seq<RowView>
    decreases fields.len(),
{
    if fields.len() == 0 {
        Seq::empty()
    } else {
        field_blocks(fields.drop_last(), width) + labeled_rows(
            "     "@ + fields.last().0 + "  "@,
            fields.last().1,
            width,
        )
    }
}

pub(crate) fn fields_block(fields: &Vec<(String, String)>, width: usize) -> (r: Vec<Row>)
    ensures
        row_views(r@) == field_blocks(pair_views(fields@), width),
{
    let mut out: Vec<Row> = Vec::new();
    let ghost all = pair_views(fields@);
    let mut i: usize = 0;
    assert(row_views(out@) =~= field_blocks(all.take(0), width));
    while i < fields.len()
        invariant
            i <= fields@.len(),
            all == pair_views(fields@),
            row_views(out@) == field_blocks(all.take(i as int), width),
        decreases fields@.len() - i,
    {
        let label: String = concat3("     ", &fields[i].0, "  ");
        let more: Vec<Row> = labeled_block(&label, &fields[i].1, width);
        append_rows(&mut out, more);
        assert(all.take(i + 1).drop_last() =~= all.take(i as int));
        assert(all.take(i + 1).last() == (fields@[i as int].0@, fields@[i as int].1@));
        i = i + 1;
    }
    assert(all.take(i as int) =~= all);
    out
}

/// A row filled up to a width, with the band behind it.
pub open spec fn banded(row: RowView, width: nat) -> RowView {
    RowView {
        spans: if row_width(row.spans) < width {
            row.spans.push(
                span_of(repeat(' ', (width - row_width(row.spans)) as nat), Tone::Plain),
            )
        } else {
            row.spans
        },
        band: true,
    }
}

/// Rows with the band behind them, where it is wanted.
pub open spec fn highlighted(rows: Seq<RowView>, width: nat, on: bool) -> Seq<RowView> {
    if on {
        rows.map_values(|r: RowView| banded(r, width))
    } else {
        rows
    }
}

fn width_up_to(spans: &Vec<Span>, limit: usize) -> (r: usize)
    ensures
        r == if row_width(span_views(spans@)) < limit {
            row_width(span_views(spans@))
        } else {
            limit as nat
        },
{
    let mut used: usize = 0;
    let ghost all = span_views(spans@);
    let mut i: usize = 0;
    assert(row_width(all.take(0)) == 0);
    while i < spans.len()
        invariant
            i <= spans@.len(),
            all == span_views(spans@),
            used == if row_width(all.take(i as int)) < limit {
                row_width(all.take(i as int))
            } else {
                limit as nat
            },
            used <= limit,
        decreases spans@.len() - i,
    {
        let n: usize = chars_of(&spans[i].content).len();
        assert(all.take(i + 1).drop_last() =~= all.take(i as int));
        assert(all.take(i + 1).last().content.len() == n);
        if n >= limit - used {
            used = limit;
        } else {
            used = used + n;
        }
        i = i + 1;
    }
    assert(all.take(i as int) =~= all);
    used
}

/// Fills a row up to a width, so that a band paints the whole of it. A wider
/// row is left alone.
pub fn pad_to(row: Row, width: usize) -> (r: Row)
    ensures
        r@ == (RowView {
            spans: if row_width(row@.spans) < width {
                row@.spans.push(
                    span_of(repeat(' ', (width - row_width(row@.spans)) as nat), Tone::Plain),
                )
            } else {
                row@.spans
            },
            band: row.band,
        }),
{
    let used: usize = width_up_to(&row.spans, width);
    let mut row: Row = row;
    if used < width {
        push_span(
            &mut row.spans,
            Span { content: repeat_char(' ', width - used), tone: Tone::Plain },
        );
    }
    row
}

/// Puts the band behind rows, where it is wanted.
pub fn highlight_rows(rows: Vec<Row>, width: usize, on: bool) -> (r: Vec<Row>)
    ensures
        row_views(r@) == highlighted(row_views(rows@), width as nat, on),
{
    if !on {
        return rows;
    }
    let mut rest: Vec<Row> = rows;
    let ghost all = rest@;
    let ghost target = highlighted(row_views(all), width as nat, true);
    let ghost mut done: int = 0;
    let mut out: Vec<Row> = Vec::new();
    assert(row_views(out@) =~= target.take(0));
    while rest.len() > 0
        invariant
            0 <= done <= all.len(),
            rest@ == all.skip(done),
            target == highlighted(row_views(all), width as nat, true),
            row_views(out@) == target.take(done),
        decreases rest@.len(),
    {
        let row: Row = rest.remove(0);
        assert(row == all[done]);
        assert(rest@ =~= all.skip(done + 1));
        let mut padded: Row = pad_to(row, width);
        padded.band = true;
        assert(padded@.spans =~= banded(row@, width as nat).spans);
        push_row(&mut out, padded);
        assert(target.take(done + 1) =~= target.take(done).push(target[done]));
        proof {
            done = done + 1;
        }
    }
    assert(target.take(done) =~= target);
    out
}

/// With the band off the rows are left alone; with it on every row is at least
/// as wide as the screen.
pub proof fn the_band_covers_the_whole_row(rows: Seq<RowView>, width: nat, i: int)
    requires
        0 <= i < rows.len(),
    ensures
        highlighted(rows, width, false)[i] == rows[i],
        highlighted(rows, width, true)[i].band,
        row_width(highlighted(rows, width, true)[i].spans) >= width,
{
    let spans = rows[i].spans;
    if row_width(spans) < width {
        let padded = spans.push(
            span_of(repeat(' ', (width - row_width(spans)) as nat), Tone::Plain),
        );
        assert(padded.drop_last() =~= spans);
    }
}

// ---------------------------------------------------------------------------
// Markdown
// ---------------------------------------------------------------------------

/// The lines that `tui_markdown::from_str` makes of a text, each as spans with
/// the style that it chose.
pub uninterp spec fn markdown_rows(text: Seq<char>) -> Seq<Seq<SpanView>>;

/// Calls `tui_markdown::from_str` and takes its lines apart into spans.
#[verifier::external_body]
fn render_markdown(text: &str) -> (r: Vec<Vec<Span>>)
    ensures
        line_views(r@) == markdown_rows(text@),
{
    tui_markdown::from_str(text).lines.into_iter().map(
        |line|
            line.spans.into_iter().map(
                |s| Span { content: s.content.into_owned(), tone: Tone::Rendered(s.style) },
            ).collect(),
    ).collect()
}

/// The text of a line.
pub open spec fn line_text(line: Seq<SpanView>) -> Seq<char>
    decreases line.len(),
{
    if line.len() == 0 {
        Seq::empty()
    } else {
        line_text(line.drop_last()) + line.last().content
    }
}

fn text_of_line(line: &Vec<Span>) -> (r: String)
    ensures
        r@ == line_text(span_views(line@)),
{
    let mut out: String = String::new();
    let ghost all = span_views(line@);
    let mut i: usize = 0;
    assert(out@ =~= line_text(all.take(0)));
    while i < line.len()
        invariant
            i <= line@.len(),
            all == span_views(line@),
            out@ == line_text(all.take(i as int)),
        decreases line@.len() - i,
    {
        out.append(&line[i].content);
        assert(all.take(i + 1).drop_last() =~= all.take(i as int));
        assert(all.take(i + 1).last().content == line@[i as int].content@);
        i = i + 1;
    }
    assert(all.take(i as int) =~= all);
    out
}

/// Whether a line opens or closes a block of code.
pub open spec fn is_fence(line: Seq<char>) -> bool {
    strip_prefix(trim_end(line), "```"@) is Some
}

/// A text without the backticks in front of it.
pub open spec fn without_backticks(s: Seq<char>) -> Seq<char>
    decreases s.len(),
{
    if s.len() > 0 && s[0] == '`' {
        without_backticks(s.drop_first())
    } else {
        s
    }
}

/// What stands in place of the line that opens a block of code: its language,
/// or a word for it.
pub open spec fn fence_tag(line: Seq<char>) -> Seq<char> {
    let language = trim(without_backticks(trim(line)));
    if language.len() == 0 {
        "code"@
    } else {
        language
    }
}

fn tag_of_fence(line: &[char]) -> (r: String)
    ensures
        r@ == fence_tag(line@),
{
    let t: &[char] = trim_chars(line);
    let mut i: usize = 0;
    assert(t@.skip(0) =~= t@);
    while i < t.len() && t[i] == '`'
        invariant
            i <= t@.len(),
            without_backticks(t@) == without_backticks(t@.skip(i as int)),
        decreases t@.len() - i,
    {
        assert(t@.skip(i as int).drop_first() =~= t@.skip(i + 1));
        i = i + 1;
    }
    let rest: &[char] = vstd::slice::slice_subrange(t, i, t.len());
    assert(rest@ =~= t@.skip(i as int));
    let language: &[char] = trim_chars(rest);
    if language.len() == 0 {
        String::from_str("code")
    } else {
        string_of(language)
    }
}

/// The lines without the fences of code blocks: the opening one becomes a tag,
/// the closing one is dropped.
pub open spec fn without_fences(lines: Seq<Seq<SpanView>>, inside: bool) -> Seq<Seq<SpanView>>
    decreases lines.len(),
{
    if lines.len() == 0 {
        Seq::empty()
    } else {
        let plain = line_text(lines[0]);
        let rest = lines.drop_first();
        if !is_fence(plain) {
            seq![lines[0]] + without_fences(rest, inside)
        } else if inside {
            without_fences(rest, false)
        } else {
            seq![seq![span_of(fence_tag(plain), Tone::DarkGrayItalic)]] + without_fences(rest, true)
        }
    }
}

/// Replaces the fences of code blocks by tags.
pub fn strip_fences(lines: Vec<Vec<Span>>) -> (r: Vec<Vec<Span>>)
    ensures
        line_views(r@) == without_fences(line_views(lines@), false),
{
    let mut rest: Vec<Vec<Span>> = lines;
    let ghost target = without_fences(line_views(rest@), false);
    let mut out: Vec<Vec<Span>> = Vec::new();
    let mut inside: bool = false;
    assert(line_views(out@) + without_fences(line_views(rest@), inside) =~= target);
    while rest.len() > 0
        invariant
            line_views(out@) + without_fences(line_views(rest@), inside) == target,
        decreases rest@.len(),
    {
        let ghost before = line_views(rest@);
        let ghost done = line_views(out@);
        let line: Vec<Span> = rest.remove(0);
        assert(before[0] == span_views(line@));
        assert(line_views(rest@) =~= before.drop_first());
        let plain: Vec<char> = chars_of(&text_of_line(&line));
        let fence: bool = strip_prefix_chars(trim_end_chars(&plain), "```").is_some();
        if !fence {
            out.push(line);
            assert(line_views(out@) =~= done.push(span_views(line@)));
            assert(line_views(out@) + without_fences(line_views(rest@), inside) =~= target);
        } else if inside {
            inside = false;
        } else {
            inside = true;
            let tag: Vec<Span> = one_span(
                Span { content: tag_of_fence(&plain), tone: Tone::DarkGrayItalic },
            );
            out.push(tag);
            assert(line_views(out@) =~= done.push(span_views(tag@)));
            assert(line_views(out@) + without_fences(line_views(rest@), inside) =~= target);
        }
    }
    assert(line_views(rest@) =~= Seq::empty());
    assert(line_views(out@) + Seq::<Seq<SpanView>>::empty() =~= line_views(out@));
    out
}

/// A reply as markdown.
pub fn markdown_lines(text: &str) -> (r: Vec<Vec<Span>>)
    ensures
        line_views(r@) == without_fences(markdown_rows(text@), false),
{
    strip_fences(render_markdown(text))
}

/// No line that is left is a fence, where no tag looks like one.
pub proof fn no_fence_is_left(lines: Seq<Seq<SpanView>>, inside: bool)
    requires
        forall|i: int|
            0 <= i < lines.len() ==> !is_fence(fence_tag(#[trigger] line_text(lines[i]))),
    ensures
        forall|i: int|
            0 <= i < without_fences(lines, inside).len() ==> !is_fence(
                line_text(#[trigger] without_fences(lines, inside)[i]),
            ),
    decreases lines.len(),
{
    if lines.len() > 0 {
        let plain = line_text(lines[0]);
        let rest = lines.drop_first();
        assert forall|i: int| 0 <= i < rest.len() implies !is_fence(
            fence_tag(#[trigger] line_text(rest[i])),
        ) by {
            assert(rest[i] == lines[i + 1]);
            assert(!is_fence(fence_tag(line_text(lines[i + 1]))));
        }
        no_fence_is_left(rest, inside);
        no_fence_is_left(rest, true);
        no_fence_is_left(rest, false);
        let tag = seq![span_of(fence_tag(plain), Tone::DarkGrayItalic)];
        assert(line_text(tag) =~= fence_tag(plain)) by {
            assert(tag.drop_last() =~= Seq::empty());
            assert(line_text(tag.drop_last()) =~= Seq::<char>::empty());
        }
        let all = without_fences(lines, inside);
        assert forall|i: int| 0 <= i < all.len() implies !is_fence(
            line_text(#[trigger] all[i]),
        ) by {
            if !is_fence(plain) {
                if i > 0 {
                    assert(all[i] == without_fences(rest, inside)[i - 1]);
                } else {
                    assert(all[0] == lines[0]);
                }
            } else if !inside {
                if i > 0 {
                    assert(all[i] == without_fences(rest, true)[i - 1]);
                } else {
                    assert(all[0] == tag);
                    assert(!is_fence(fence_tag(line_text(lines[0]))));
                }
            } else {
                assert(all[i] == without_fences(rest, false)[i]);
            }
        }
    }
}

// ---------------------------------------------------------------------------
// Laws of rendering
// ---------------------------------------------------------------------------

/// A directory below home is shown from home, and any other as it is.
pub proof fn home_is_shown_by_its_sign(dir: Seq<char>, home: Seq<char>, rest: Seq<char>)
    ensures
        home_relative_text(home + rest, Some(home)) == "~"@ + rest,
        home_relative_text(dir, None) == dir,
        (forall|r: Seq<char>| dir != #[trigger] (home + r)) ==> home_relative_text(dir, Some(home))
            == dir,
{
    crate::text::a_stripped_prefix_can_be_put_back(home + rest, home, rest);
    crate::text::a_stripped_prefix_can_be_put_back(dir, home, rest);
}

/// A clipped text starts as the text does, on one line, and ends with an
/// ellipsis exactly where something is left out.
pub proof fn a_clipped_text_starts_as_the_text_does(s: Seq<char>, width: nat)
    ensures
        s.len() <= width ==> clipped(s, width).len() == s.len(),
        s.len() > width && width > 0 ==> clipped(s, width).len() == width && clipped(
            s,
            width,
        ).last() == '\u{2026}',
        forall|i: int|
            0 <= i < s.len() && (s.len() <= width || i < width - 1) ==> #[trigger] clipped(
                s,
                width,
            )[i] == if s[i] == '\n' {
                ' '
            } else {
                s[i]
            },
{
}

/// The box of what waits has a row for each of the first five messages, one for
/// the rest, its borders and a gap; without any message there is no box.
pub proof fn what_waits_takes_its_rows(waiting: nat)
    ensures
        pending_rows_count(0) == 0,
        0 < waiting <= 5 ==> pending_rows_count(waiting) == waiting + 3,
        waiting > 5 ==> pending_rows_count(waiting) == 5 + 1 + 3,
{
}

/// The input is as tall as what is typed, between one row and ten, and shorter
/// where the screen is; it never takes the conversation's last row while there
/// is one.
pub proof fn the_input_is_as_tall_as_what_is_typed(content_rows: int, height: int, taken: int)
    ensures
        1 <= input_height_value(content_rows, height, taken) <= 10,
        1 <= content_rows <= 10 && content_rows + 7 + taken <= height ==> input_height_value(
            content_rows,
            height,
            taken,
        ) == content_rows,
        content_rows > 10 && 17 + taken <= height ==> input_height_value(
            content_rows,
            height,
            taken,
        ) == 10,
        8 + taken <= height ==> input_height_value(content_rows, height, taken) + 7 + taken
            <= height,
{
}

/// What is typed fills the rows from the left: a character goes behind the
/// others on the last row, a full row and a line feed start the next one.
pub proof fn what_is_typed_fills_the_rows(s: Seq<char>, c: char, width: nat)
    requires
        width > 0,
        c != '\n',
    ensures
        typed_rows(Seq::empty(), width) == seq![Seq::<char>::empty()],
        typed_rows(s.push('\n'), width) == typed_rows(s, width).push(Seq::empty()),
        ({
            let before = typed_rows(s, width);
            let last = before.last().push(c);
            &&& last.len() < width ==> typed_rows(s.push(c), width) == before.drop_last().push(last)
            &&& last.len() == width ==> typed_rows(s.push(c), width) == before.drop_last().push(
                last,
            ).push(Seq::empty())
        }),
        typed_rows(s, width).len() > 0,
        typed_rows(s, width).last().len() < width,
        forall|i: int|
            0 <= i < typed_rows(s, width).len() ==> (#[trigger] typed_rows(s, width)[i]).len()
                <= width,
    decreases s.len(),
{
    assert(s.push('\n').drop_last() =~= s);
    assert(s.push(c).drop_last() =~= s);
    rows_keep_to_the_width(s, width);
}

proof fn rows_keep_to_the_width(s: Seq<char>, width: nat)
    requires
        width > 0,
    ensures
        typed_rows(s, width).len() > 0,
        typed_rows(s, width).last().len() < width,
        forall|i: int|
            0 <= i < typed_rows(s, width).len() ==> (#[trigger] typed_rows(s, width)[i]).len()
                <= width,
    decreases s.len(),
{
    if s.len() > 0 {
        let before = typed_rows(s.drop_last(), width);
        let rows = typed_rows(s, width);
        rows_keep_to_the_width(s.drop_last(), width);
        assert forall|i: int| 0 <= i < rows.len() implies (#[trigger] rows[i]).len() <= width by {
            if i < before.len() - 1 {
                assert(rows[i] == before[i]);
            } else if i < before.len() && s.last() == '\n' {
                assert(rows[i] == before[i]);
            }
        }
    }
}

/// The rows of a block keep their order and their contents: the sign stands in
/// front of the first, the gutter in front of the others, and what trails
/// behind the last.
pub proof fn a_block_keeps_its_rows(
    rows: Seq<Seq<SpanView>>,
    prefix: SpanView,
    gutter: SpanView,
    trailing: Seq<SpanView>,
    i: int,
)
    requires
        0 <= i < rows.len(),
    ensures
        ({
            let shown = decorated(rows, prefix, gutter, trailing);
            let front = if i == 0 {
                prefix
            } else {
                gutter
            };
            &&& shown.len() == rows.len()
            &&& !shown[i].band
            &&& i < rows.len() - 1 ==> shown[i].spans == seq![front] + rows[i]
            &&& i == rows.len() - 1 ==> shown[i].spans == seq![front] + rows[i] + trailing
        }),
{
    let shown = decorated(rows, prefix, gutter, trailing);
    if i < rows.len() - 1 {
        assert(shown[i].spans =~= seq![
            if i == 0 {
                prefix
            } else {
                gutter
            },
        ] + rows[i]);
    }
}

/// The lines of a block are wrapped one behind the other, each on its own.
pub proof fn lines_are_wrapped_one_behind_the_other(
    lines: Seq<Seq<SpanView>>,
    line: Seq<SpanView>,
    width: usize,
)
    ensures
        all_wrapped(Seq::empty(), width).len() == 0,
        all_wrapped(lines.push(line), width) == all_wrapped(lines, width) + wrapped_rows(
            line,
            width,
        ),
{
    assert(lines.push(line).drop_last() =~= lines);
}

/// A text of one line that fits is one row: the sign, the text, and what
/// trails.
pub proof fn a_short_text_is_one_row(
    prefix: SpanView,
    text: Seq<char>,
    trailing: Seq<SpanView>,
    width: usize,
)
    requires
        !text.contains('\n'),
        text.len() <= width,
        width > 0,
    ensures
        block_rows(prefix, text, trailing, width).len() == 1,
        ink(block_rows(prefix, text, trailing, width)[0].spans) == prefix.content + text + ink(
            trailing,
        ),
{
    crate::text::a_text_without_separator_is_one_piece(text, '\n');
    let line = seq![span_of(text, Tone::Plain)];
    let lines = toned_lines(split(text, '\n'), Tone::Plain);
    assert(lines =~= seq![line]);
    assert(line.drop_last() =~= Seq::<SpanView>::empty());
    assert(row_width(Seq::<SpanView>::empty()) == 0);
    assert(line.last().content == text);
    assert(row_width(line) == text.len());
    crate::tui::rows::a_line_that_fits_stays_on_one_row(line, width);
    let none = Seq::<Seq<SpanView>>::empty();
    assert(none.push(line) =~= lines);
    lines_are_wrapped_one_behind_the_other(none, line, width);
    let rows = wrapped_rows(line, width);
    assert(all_wrapped(lines, width) =~= rows);
    a_block_keeps_its_rows(rows, prefix, span_of("  "@, Tone::Plain), trailing, 0);
    pieces_stand_one_behind_the_other(prefix, prefix, prefix);
    rows_of_pieces_join(seq![prefix], rows[0]);
    rows_of_pieces_join(seq![prefix] + rows[0], trailing);
    crate::tui::rows::tones_do_not_change_the_text(rows[0]);
    crate::tui::rows::tones_do_not_change_the_text(line);
    pieces_stand_one_behind_the_other(line[0], line[0], line[0]);
    assert(ink(rows[0]) =~= text);
}

/// A named value that fits stands behind its name on one row.
pub proof fn a_short_value_stands_behind_its_name(
    label: Seq<char>,
    value: Seq<char>,
    width: usize,
)
    requires
        label.len() + value.len() <= width,
        label.len() < width,
    ensures
        labeled_rows(label, value, width).len() == 1,
        ink(labeled_rows(label, value, width)[0].spans) == label + value,
{
    let room = (width - label.len()) as usize;
    let line = seq![span_of(value, Tone::Plain)];
    assert(line.drop_last() =~= Seq::<SpanView>::empty());
    assert(row_width(Seq::<SpanView>::empty()) == 0);
    assert(line.last().content == value);
    assert(row_width(line) == value.len());
    crate::tui::rows::a_line_that_fits_stays_on_one_row(line, room);
    let rows = wrapped_rows(line, room);
    let front = span_of(label, Tone::DarkGray);
    a_block_keeps_its_rows(
        rows,
        front,
        span_of(repeat(' ', label.len()), Tone::Plain),
        Seq::empty(),
        0,
    );
    pieces_stand_one_behind_the_other(front, front, front);
    rows_of_pieces_join(seq![front], rows[0]);
    rows_of_pieces_join(seq![front] + rows[0], Seq::empty());
    crate::tui::rows::tones_do_not_change_the_text(rows[0]);
    crate::tui::rows::tones_do_not_change_the_text(line);
    pieces_stand_one_behind_the_other(line[0], line[0], line[0]);
    assert(ink(rows[0]) =~= value);
    assert(label + value + ink(Seq::<SpanView>::empty()) =~= label + value);
}

/// Fields are shown one behind the other, each under its own name.
pub proof fn fields_are_shown_one_behind_the_other(
    fields: Seq<(Seq<char>, Seq<char>)>,
    name: Seq<char>,
    value: Seq<char>,
    width: usize,
)
    ensures
        field_blocks(Seq::empty(), width).len() == 0,
        field_blocks(fields.push((name, value)), width) == field_blocks(fields, width)
            + labeled_rows("     "@ + name + "  "@, value, width),
{
    assert(fields.push((name, value)).drop_last() =~= fields);
}

/// A band changes nothing of what stands on a row, and without it the rows stay
/// as they are.
pub proof fn a_band_changes_no_text(rows: Seq<RowView>, width: nat, i: int)
    requires
        0 <= i < rows.len(),
    ensures
        highlighted(rows, width, false) == rows,
        highlighted(rows, width, true).len() == rows.len(),
        highlighted(rows, width, true)[i].spans.take(rows[i].spans.len() as int) == rows[i].spans,
        highlighted(rows, width, true)[i].spans.len() <= rows[i].spans.len() + 1,
{
    assert(highlighted(rows, width, true)[i].spans.take(rows[i].spans.len() as int)
        =~= rows[i].spans);
}

/// Of a rendered text every line stays, in its order, but for the fences: one
/// that opens a block becomes its tag, and one that closes it goes.
pub proof fn only_fences_are_replaced(
    line: Seq<SpanView>,
    rest: Seq<Seq<SpanView>>,
    inside: bool,
)
    ensures
        without_fences(Seq::empty(), inside).len() == 0,
        !is_fence(line_text(line)) ==> without_fences(seq![line] + rest, inside) == seq![line]
            + without_fences(rest, inside),
        is_fence(line_text(line)) && inside ==> without_fences(seq![line] + rest, inside)
            == without_fences(rest, false),
        is_fence(line_text(line)) && !inside ==> without_fences(seq![line] + rest, inside) == seq![
            seq![span_of(fence_tag(line_text(line)), Tone::DarkGrayItalic)],
        ] + without_fences(rest, true),
{
    assert((seq![line] + rest).drop_first() =~= rest);
}

/// A fence is tagged with the language behind its backticks, or as code where
/// it names none.
pub proof fn a_fence_is_tagged_with_its_language(language: Seq<char>)
    requires
        language.len() > 0,
        trim(language) == language,
        language[0] != '`',
    ensures
        is_fence("```"@ + language),
        fence_tag("```"@ + language) == language,
        is_fence("```"@),
        fence_tag("```"@) == "code"@,
{
    crate::text::the_ends_hold_ink(language);
    a_fence_is_read(language);
    a_fence_is_read(Seq::empty());
    assert("```"@ + Seq::<char>::empty() =~= "```"@);
    crate::text::only_white_space_trims_to_nothing(Seq::empty());
}

proof fn a_fence_is_read(language: Seq<char>)
    requires
        language.len() > 0 ==> language[0] != '`' && !crate::text::is_white(
            language[language.len() - 1],
        ),
    ensures
        is_fence("```"@ + language),
        without_backticks(trim("```"@ + language)) == language,
{
    reveal_strlit("```");
    let line = "```"@ + language;
    assert(line[0] == '`');
    if language.len() > 0 {
        assert(line[line.len() - 1] == language[language.len() - 1]);
    } else {
        assert(line[line.len() - 1] == '`');
    }
    crate::text::a_text_without_outer_white_space_is_not_trimmed(line);
    assert(trim_end(line) == line);
    assert(line.take(3) =~= "```"@);
    three_backticks_go(language);
}

proof fn three_backticks_go(rest: Seq<char>)
    requires
        rest.len() > 0 ==> rest[0] != '`',
    ensures
        without_backticks("```"@ + rest) == rest,
{
    reveal_strlit("```");
    let three = "```"@ + rest;
    let two = three.drop_first();
    let one = two.drop_first();
    assert(one.drop_first() =~= rest);
    assert(three[0] == '`' && two[0] == '`' && one[0] == '`');
    assert(without_backticks(rest) == rest);
    assert(without_backticks(one) == rest);
    assert(without_backticks(two) == rest);
}

/// The hash of an id takes in its bytes one by one: each is mixed in and spread
/// by the prime, modulo the word.
pub proof fn the_hash_takes_in_each_byte(bytes: Seq<u8>, byte: u8)
    ensures
        fnv(Seq::empty()) == 0xcbf2_9ce4_8422_2325u64,
        fnv(bytes.push(byte)) == ((fnv(bytes) ^ (byte as u64)) as int * 0x100_0000_01b3)
            % 0x1_0000_0000_0000_0000,
{
    assert(bytes.push(byte).drop_last() =~= bytes);
}

/// A mark takes its two halves and its colour from different bits of the hash
/// of the id, and from nothing else.
pub proof fn a_mark_comes_from_the_hash(seed: Seq<char>)
    ensures
        mark_text(seed).len() == 2,
        mark_text(seed)[0] == half_mark(fnv(vstd::utf8::encode_utf8(seed)) as nat),
        mark_text(seed)[1] == half_mark((fnv(vstd::utf8::encode_utf8(seed)) >> 12) as nat),
        mark_tone(seed) == mark_colour((fnv(vstd::utf8::encode_utf8(seed)) >> 24) as int % 12),
{
}

/// A line that fits is one row of its block: the sign, what stands on the line,
/// and what trails.
pub proof fn a_short_line_is_one_row(
    prefix: SpanView,
    line: Seq<SpanView>,
    trailing: Seq<SpanView>,
    width: usize,
    gutter: Seq<char>,
)
    requires
        row_width(line) <= width,
        width > 0,
    ensures
        rendered_rows(prefix, seq![line], trailing, width, gutter).len() == 1,
        ink(rendered_rows(prefix, seq![line], trailing, width, gutter)[0].spans) == prefix.content
            + ink(line) + ink(trailing),
{
    crate::tui::rows::a_line_that_fits_stays_on_one_row(line, width);
    let none = Seq::<Seq<SpanView>>::empty();
    assert(none.push(line) =~= seq![line]);
    lines_are_wrapped_one_behind_the_other(none, line, width);
    let rows = wrapped_rows(line, width);
    assert(all_wrapped(seq![line], width) =~= rows);
    a_block_keeps_its_rows(rows, prefix, span_of(gutter, Tone::Plain), trailing, 0);
    pieces_stand_one_behind_the_other(prefix, prefix, prefix);
    rows_of_pieces_join(seq![prefix], rows[0]);
    rows_of_pieces_join(seq![prefix] + rows[0], trailing);
    crate::tui::rows::tones_do_not_change_the_text(rows[0]);
    crate::tui::rows::tones_do_not_change_the_text(line);
    assert(ink(rows[0]) =~= ink(line));
}

/// Two lines that fit are two rows, the second behind the gutter.
pub proof fn two_short_lines_are_two_rows(
    prefix: SpanView,
    first: Seq<SpanView>,
    second: Seq<SpanView>,
    width: usize,
    gutter: Seq<char>,
)
    requires
        row_width(first) <= width,
        row_width(second) <= width,
        width > 0,
    ensures
        ({
            let rows = rendered_rows(prefix, seq![first, second], Seq::empty(), width, gutter);
            &&& rows.len() == 2
            &&& ink(rows[0].spans) == prefix.content + ink(first)
            &&& ink(rows[1].spans) == gutter + ink(second)
        }),
{
    crate::tui::rows::a_line_that_fits_stays_on_one_row(first, width);
    crate::tui::rows::a_line_that_fits_stays_on_one_row(second, width);
    let none = Seq::<Seq<SpanView>>::empty();
    assert(none.push(first) =~= seq![first]);
    assert(seq![first].push(second) =~= seq![first, second]);
    lines_are_wrapped_one_behind_the_other(none, first, width);
    lines_are_wrapped_one_behind_the_other(seq![first], second, width);
    let a = wrapped_rows(first, width);
    let b = wrapped_rows(second, width);
    let rows = all_wrapped(seq![first, second], width);
    assert(rows =~= seq![a[0], b[0]]);
    let empty = Seq::<SpanView>::empty();
    let space = span_of(gutter, Tone::Plain);
    a_block_keeps_its_rows(rows, prefix, space, empty, 0);
    a_block_keeps_its_rows(rows, prefix, space, empty, 1);
    pieces_stand_one_behind_the_other(prefix, prefix, prefix);
    pieces_stand_one_behind_the_other(space, space, space);
    rows_of_pieces_join(seq![prefix], a[0]);
    rows_of_pieces_join(seq![space], b[0]);
    assert(seq![space] + b[0] + empty =~= seq![space] + b[0]);
    crate::tui::rows::tones_do_not_change_the_text(a[0]);
    crate::tui::rows::tones_do_not_change_the_text(first);
    crate::tui::rows::tones_do_not_change_the_text(b[0]);
    crate::tui::rows::tones_do_not_change_the_text(second);
    assert(ink(a[0]) =~= ink(first));
    assert(ink(b[0]) =~= ink(second));
}

/// Every row of a text but the first starts with two spaces, and every row of a
/// named value but the first with as many as the name is wide.
pub proof fn what_goes_on_stands_under_its_start(
    prefix: SpanView,
    text: Seq<char>,
    trailing: Seq<SpanView>,
    label: Seq<char>,
    width: usize,
    i: int,
)
    requires
        i > 0,
    ensures
        i < block_rows(prefix, text, trailing, width).len() ==> block_rows(
            prefix,
            text,
            trailing,
            width,
        )[i].spans[0].content == "  "@,
        i < labeled_rows(label, text, width).len() ==> {
            let front = labeled_rows(label, text, width)[i].spans[0].content;
            &&& front.len() == label.len()
            &&& forall|k: int| 0 <= k < front.len() ==> #[trigger] front[k] == ' '
        },
{
}

/// A half of a mark is the pattern that the bits number, among those that make
/// a good mark.
pub proof fn a_half_is_the_pattern_of_its_number(bits: nat)
    ensures
        mark_patterns(256).len() > 0,
        half_mark(bits) == ((0x2800 + mark_patterns(256)[(bits % mark_patterns(256).len()) as int])
            as u32) as char,
        half_mark(bits + mark_patterns(256).len()) == half_mark(bits),
{
    lemma_mark_patterns(256);
    let n = mark_patterns(256).len();
    vstd::arithmetic::div_mod::lemma_mod_add_multiples_vanish(bits as int, n as int);
    assert((n + bits) % n == bits % n);
}

/// The patterns of a mark are those of three to seven dots, in their order.
pub proof fn the_patterns_have_three_to_seven_dots(n: nat)
    ensures
        mark_patterns(0).len() == 0,
        3 <= ones(n) <= 7 ==> mark_patterns(n + 1) == mark_patterns(n).push(n),
        !(3 <= ones(n) <= 7) ==> mark_patterns(n + 1) == mark_patterns(n),
        ones(2 * n) == ones(n),
        ones(2 * n + 1) == ones(n) + 1,
        ones(0) == 0,
{
    assert((2 * n) / 2 == n && (2 * n) % 2 == 0);
    assert((2 * n + 1) / 2 == n && (2 * n + 1) % 2 == 1);
}

} // verus!
