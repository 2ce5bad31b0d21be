//! Text wrapped for the terminal.

use vstd::prelude::*;
use vstd::string::*;

use crate::text::{chars_of, concat2, join, join_chars, split, split_chars, string_of, views};

verus! {

/// What `textwrap::fill` returns for a line and a width.
pub uninterp spec fn filled(line: Seq<char>, width: usize) -> Seq<char>;

/// Calls `textwrap::fill` with its default options.
#[verifier::external_body]
fn fill(line: &str, width: usize) -> (r: String)
    ensures
        r@ == filled(line@, width),
{
    textwrap::fill(line, width)
}

/// Calls `textwrap::termwidth`. Nothing is promised of the width, which is the
/// terminal's.
#[verifier::external_body]
fn terminal_width() -> (r: usize) {
    textwrap::termwidth()
}

/// A text with each of its lines wrapped to a width.
pub open spec fn wrapped(text: Seq<char>, width: usize, between: Seq<char>) -> Seq<char> {
    join(split(text, '\n').map_values(|line: Seq<char>| filled(line, width)), between)
}

fn wrap_lines(text: &str, width: usize, between: &str) -> (r: String)
    ensures
        r@ == wrapped(text@, width, between@),
{
    let chars: Vec<char> = chars_of(text);
    let pieces: Vec<Vec<char>> = split_chars(&chars, '\n');
    let ghost all = views(pieces@);
    let ghost target = all.map_values(|line: Seq<char>| filled(line, width));
    let mut lines: Vec<Vec<char>> = Vec::new();
    let mut i: usize = 0;
    while i < pieces.len()
        invariant
            i <= pieces@.len(),
            all == views(pieces@),
            target == all.map_values(|line: Seq<char>| filled(line, width)),
            views(lines@) == target.take(i as int),
        decreases pieces@.len() - i,
    {
        let ghost before = views(lines@);
        let line: String = fill(&string_of(&pieces[i]), width);
        let line_chars: Vec<char> = chars_of(&line);
        lines.push(line_chars);
        assert(all[i as int] == pieces@[i as int]@);
        assert(views(lines@) == before.push(line@));
        assert(target.take(i + 1) == before.push(target[i as int]));
        i = i + 1;
    }
    assert(target.take(i as int) == target);
    join_chars(&lines, between)
}

/// A text wrapped to a width. The line breaks that it has stay.
pub fn wrap_to(text: &str, width: usize) -> (r: String)
    ensures
        r@ == wrapped(text@, width, "\n"@),
{
    wrap_lines(text, width, "\n")
}

/// A text wrapped to a width, with every line but the first behind an indent.
pub fn wrap_indented_to(text: &str, indent: &str, width: usize) -> (r: String)
    ensures
        r@ == wrapped(text@, width, "\n"@ + indent@),
{
    let between: String = concat2("\n", indent);
    wrap_lines(text, width, &between)
}

/// The terminal's width, or twenty columns where that is narrower.
pub fn text_width() -> (r: usize)
    ensures
        r >= 20,
{
    let terminal: usize = terminal_width();
    if terminal > 20 {
        terminal
    } else {
        20
    }
}

/// A text wrapped to the terminal's width, or to twenty columns where that is
/// narrower.
pub fn wrap(text: &str) -> (r: String)
    ensures
        exists|width: usize| width >= 20 && r@ == #[trigger] wrapped(text@, width, "\n"@),
{
    wrap_to(text, text_width())
}

/// A text wrapped to the terminal's width, with every line but the first
/// behind an indent.
pub fn wrap_indented(text: &str, indent: &str) -> (r: String)
    ensures
        exists|width: usize|
            width >= 20 && r@ == #[trigger] wrapped(text@, width, "\n"@ + indent@),
{
    wrap_indented_to(text, indent, text_width())
}

/// Each line is wrapped on its own: a text without a line feed is one line, and
/// what stands behind a line feed is wrapped as if it stood alone.
pub proof fn each_line_is_wrapped_on_its_own(
    line: Seq<char>,
    rest: Seq<char>,
    width: usize,
    between: Seq<char>,
)
    requires
        !line.contains('\n'),
    ensures
        wrapped(line + seq!['\n'] + rest, width, between) == filled(line, width) + between
            + wrapped(rest, width, between),
{
    crate::text::the_first_piece_stands_in_front(line, rest, '\n');
    crate::text::lemma_split_nonempty(rest, '\n');
    let behind = split(rest, '\n');
    let pieces = split(line + seq!['\n'] + rest, '\n');
    let shown = behind.map_values(|line: Seq<char>| filled(line, width));
    let all = pieces.map_values(|line: Seq<char>| filled(line, width));
    assert(all =~= seq![filled(line, width)] + shown);
    crate::text::a_part_in_front_is_joined(filled(line, width), shown, between);
    assert(wrapped(rest, width, between) == join(shown, between)) by {
        assert(behind.map_values(|line: Seq<char>| filled(line, width)) =~= shown);
    }
}

/// A text of one line is filled, and nothing is put around it.
pub proof fn one_line_is_filled(line: Seq<char>, width: usize, between: Seq<char>)
    requires
        !line.contains('\n'),
    ensures
        wrapped(line, width, between) == filled(line, width),
{
    crate::text::a_text_without_separator_is_one_piece(line, '\n');
    let all = seq![line].map_values(|line: Seq<char>| filled(line, width));
    assert(all =~= seq![filled(line, width)]);
    assert(wrapped(line, width, between) == join(all, between)) by {
        assert(split(line, '\n').map_values(|line: Seq<char>| filled(line, width)) =~= all);
    }
}

} // verus!
