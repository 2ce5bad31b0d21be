//! The error log: one line for each entry, the most recent hundred kept.

use vstd::prelude::*;
use vstd::string::*;

use crate::text::{
    chars_of, concat2, concat3, decimal, decimal_of, join, join_chars, repeat, repeat_char, same,
    split, split_chars, string_views, trim, trim_chars, vec_of, views,
};

verus! {

/// The most entries that are kept.
pub const MAX_ENTRIES: usize = 100;

/// The lines as they are kept once an entry has joined them.
pub open spec fn kept_lines(lines: Seq<Seq<char>>, entry: Seq<char>) -> Seq<Seq<char>> {
    let all = lines.push(entry);
    if all.len() > MAX_ENTRIES {
        all.skip(all.len() - MAX_ENTRIES)
    } else {
        all
    }
}

/// Adds an entry and drops the oldest ones beyond the limit.
pub fn append_entry(lines: Vec<String>, entry: String) -> (r: Vec<String>)
    ensures
        string_views(r@) == kept_lines(string_views(lines@), entry@),
{
    let mut lines: Vec<String> = lines;
    let ghost before = string_views(lines@);
    lines.push(entry);
    assert(string_views(lines@) == before.push(entry@));
    if lines.len() > MAX_ENTRIES {
        let excess: usize = lines.len() - MAX_ENTRIES;
        let ghost all = lines@;
        let kept: Vec<String> = lines.split_off(excess);
        assert(kept@ =~= all.skip(excess as int));
        assert(string_views(kept@) =~= string_views(all).skip(excess as int));
        kept
    } else {
        lines
    }
}

/// However many entries there were, no more than the limit are kept, the new
/// one is the last of them, and those that are kept are the most recent ones,
/// in their order.
pub proof fn the_most_recent_entries_are_kept(lines: Seq<Seq<char>>, entry: Seq<char>)
    ensures
        0 < kept_lines(lines, entry).len() <= MAX_ENTRIES,
        kept_lines(lines, entry).last() == entry,
        forall|i: int|
            0 <= i < kept_lines(lines, entry).len() ==> #[trigger] kept_lines(lines, entry)[i]
                == lines.push(entry)[i + lines.len() + 1 - kept_lines(lines, entry).len()],
{
}

/// The pieces that show anything, trimmed.
pub open spec fn shown_pieces(pieces: Seq<Seq<char>>) -> Seq<Seq<char>>
    decreases pieces.len(),
{
    if pieces.len() == 0 {
        Seq::empty()
    } else {
        let before = shown_pieces(pieces.drop_last());
        if trim(pieces.last()).len() > 0 {
            before.push(trim(pieces.last()))
        } else {
            before
        }
    }
}

/// A message on one line: its lines trimmed, blank ones left out, with a
/// semicolon between each two.
pub open spec fn flat_message(message: Seq<char>) -> Seq<char> {
    join(shown_pieces(split(message, '\n')), "; "@)
}

/// The line of one entry.
pub open spec fn entry_text(
    timestamp: Seq<char>,
    context: Seq<char>,
    message: Seq<char>,
) -> Seq<char> {
    "["@ + timestamp + "] "@ + context + ": "@ + flat_message(message)
}

/// The line of one entry.
pub fn format_entry(timestamp: &str, context: &str, message: &str) -> (r: String)
    ensures
        r@ == entry_text(timestamp@, context@, message@),
{
    let chars: Vec<char> = chars_of(message);
    let pieces: Vec<Vec<char>> = split_chars(&chars, '\n');
    let ghost all = views(pieces@);
    let mut shown: Vec<Vec<char>> = Vec::new();
    let mut i: usize = 0;
    assert(views(shown@) == shown_pieces(all.take(0)));
    while i < pieces.len()
        invariant
            i <= pieces@.len(),
            all == views(pieces@),
            views(shown@) == shown_pieces(all.take(i as int)),
        decreases pieces@.len() - i,
    {
        assert(all.take(i + 1).drop_last() == all.take(i as int));
        assert(all.take(i + 1).last() == pieces@[i as int]@);
        let line: &[char] = trim_chars(&pieces[i]);
        if line.len() > 0 {
            let ghost before = views(shown@);
            let piece: Vec<char> = vec_of(line);
            shown.push(piece);
            assert(views(shown@) == before.push(piece@));
        }
        i = i + 1;
    }
    assert(all.take(i as int) == all);
    let flat: String = join_chars(&shown, "; ");
    let mut entry: String = concat3("[", timestamp, "] ");
    entry.append(context);
    entry.append(": ");
    entry.append(&flat);
    entry
}

/// An entry whose time and context are on one line is on one line itself,
/// whatever the message.
pub proof fn an_entry_is_one_line(timestamp: Seq<char>, context: Seq<char>, message: Seq<char>)
    requires
        !timestamp.contains('\n'),
        !context.contains('\n'),
    ensures
        !entry_text(timestamp, context, message).contains('\n'),
{
    reveal_strlit("[");
    reveal_strlit("] ");
    reveal_strlit(": ");
    reveal_strlit("; ");
    lemma_pieces_have_no_sep(message, '\n');
    lemma_shown_pieces_have_no_feed(split(message, '\n'));
    lemma_join_has_no_feed(shown_pieces(split(message, '\n')), "; "@);
    lemma_sum_has_no_feed("["@, timestamp);
    lemma_sum_has_no_feed("["@ + timestamp, "] "@);
    lemma_sum_has_no_feed("["@ + timestamp + "] "@, context);
    lemma_sum_has_no_feed("["@ + timestamp + "] "@ + context, ": "@);
    lemma_sum_has_no_feed("["@ + timestamp + "] "@ + context + ": "@, flat_message(message));
}

proof fn lemma_sum_has_no_feed(a: Seq<char>, b: Seq<char>)
    requires
        !a.contains('\n'),
        !b.contains('\n'),
    ensures
        !(a + b).contains('\n'),
{
    let s = a + b;
    assert forall|i: int| 0 <= i < s.len() implies #[trigger] s[i] != '\n' by {
        if i < a.len() {
            assert(a.contains(a[i]));
        } else {
            assert(b.contains(b[i - a.len()]));
        }
    }
}

proof fn lemma_pieces_have_no_sep(s: Seq<char>, sep: char)
    ensures
        forall|i: int|
            0 <= i < split(s, sep).len() ==> !(#[trigger] split(s, sep)[i]).contains(sep),
    decreases s.len(),
{
    crate::text::lemma_split_nonempty(s, sep);
    if s.len() > 0 {
        let before = split(s.drop_last(), sep);
        crate::text::lemma_split_nonempty(s.drop_last(), sep);
        lemma_pieces_have_no_sep(s.drop_last(), sep);
        assert forall|i: int| 0 <= i < split(s, sep).len() implies !(#[trigger] split(
            s,
            sep,
        )[i]).contains(sep) by {
            if s.last() == sep {
                if i < before.len() {
                    assert(split(s, sep)[i] == before[i]);
                }
            } else if i < before.len() - 1 {
                assert(split(s, sep)[i] == before[i]);
            } else {
                let piece = before.last();
                assert(!before[before.len() - 1].contains(sep));
                let grown = piece.push(s.last());
                assert(split(s, sep)[i] == grown);
                assert forall|k: int| 0 <= k < grown.len() implies #[trigger] grown[k] != sep by {
                    if k < piece.len() {
                        assert(piece.contains(piece[k]));
                    }
                }
            }
        }
    }
}

proof fn lemma_trim_has_no_feed(s: Seq<char>)
    requires
        !s.contains('\n'),
    ensures
        !trim(s).contains('\n'),
{
    lemma_trim_start_has_no_feed(s);
    lemma_trim_end_has_no_feed(crate::text::trim_start(s));
}

proof fn lemma_trim_start_has_no_feed(s: Seq<char>)
    requires
        !s.contains('\n'),
    ensures
        !crate::text::trim_start(s).contains('\n'),
    decreases s.len(),
{
    if s.len() > 0 && crate::text::is_white(s[0]) {
        let t = s.drop_first();
        assert forall|i: int| 0 <= i < t.len() implies #[trigger] t[i] != '\n' by {
            assert(s.contains(s[i + 1]));
        }
        lemma_trim_start_has_no_feed(t);
    }
}

proof fn lemma_trim_end_has_no_feed(s: Seq<char>)
    requires
        !s.contains('\n'),
    ensures
        !crate::text::trim_end(s).contains('\n'),
    decreases s.len(),
{
    if s.len() > 0 && crate::text::is_white(s.last()) {
        let t = s.drop_last();
        assert forall|i: int| 0 <= i < t.len() implies #[trigger] t[i] != '\n' by {
            assert(s.contains(s[i]));
        }
        lemma_trim_end_has_no_feed(t);
    }
}

proof fn lemma_shown_pieces_have_no_feed(pieces: Seq<Seq<char>>)
    requires
        forall|i: int| 0 <= i < pieces.len() ==> !(#[trigger] pieces[i]).contains('\n'),
    ensures
        forall|i: int|
            0 <= i < shown_pieces(pieces).len() ==> !(#[trigger] shown_pieces(
                pieces,
            )[i]).contains('\n'),
    decreases pieces.len(),
{
    if pieces.len() > 0 {
        let before = shown_pieces(pieces.drop_last());
        lemma_shown_pieces_have_no_feed(pieces.drop_last());
        lemma_trim_has_no_feed(pieces[pieces.len() - 1]);
        assert forall|i: int| 0 <= i < shown_pieces(pieces).len() implies !(
        #[trigger] shown_pieces(pieces)[i]).contains('\n') by {
            if i < before.len() {
                assert(shown_pieces(pieces)[i] == before[i]);
            }
        }
    }
}

proof fn lemma_join_has_no_feed(parts: Seq<Seq<char>>, sep: Seq<char>)
    requires
        forall|i: int| 0 <= i < parts.len() ==> !(#[trigger] parts[i]).contains('\n'),
        !sep.contains('\n'),
    ensures
        !join(parts, sep).contains('\n'),
    decreases parts.len(),
{
    if parts.len() > 1 {
        lemma_join_has_no_feed(parts.drop_last(), sep);
        lemma_sum_has_no_feed(join(parts.drop_last(), sep), sep);
        assert(!parts[parts.len() - 1].contains('\n'));
        lemma_sum_has_no_feed(join(parts.drop_last(), sep) + sep, parts.last());
    }
}

/// A number in decimal with zeros in front, at least `width` digits.
pub open spec fn padded(n: nat, width: nat) -> Seq<char> {
    if decimal(n).len() >= width {
        decimal(n)
    } else {
        repeat('0', (width - decimal(n).len()) as nat) + decimal(n)
    }
}

fn pad(n: u64, width: usize) -> (r: String)
    ensures
        r@ == padded(n as nat, width as nat),
{
    let digits: String = decimal_of(n);
    let count: usize = chars_of(&digits).len();
    if count >= width {
        digits
    } else {
        let zeros: String = repeat_char('0', width - count);
        concat2(&zeros, &digits)
    }
}

/// Whether a year has a leap day.
pub open spec fn is_leap(year: int) -> bool {
    year % 4 == 0 && (year % 100 != 0 || year % 400 == 0)
}

/// How many days a month has.
pub open spec fn days_in_month(year: int, month: int) -> int {
    if month == 2 {
        if is_leap(year) {
            29
        } else {
            28
        }
    } else if month == 4 || month == 6 || month == 9 || month == 11 {
        30
    } else {
        31
    }
}

/// How many days of a year come before a month.
pub open spec fn days_before_month(year: int, month: int) -> int
    decreases month,
{
    if month <= 1 {
        0
    } else {
        days_before_month(year, month - 1) + days_in_month(year, month - 1)
    }
}

/// How many days lie between the first of January of the year 0 and that of
/// the given year, in the Gregorian calendar.
pub open spec fn days_before_year(year: int) -> int {
    365 * year + (year + 3) / 4 - (year + 99) / 100 + (year + 399) / 400
}

/// A day of the Gregorian calendar.
pub open spec fn is_date(year: int, month: int, day: int) -> bool {
    1 <= month <= 12 && 1 <= day <= days_in_month(year, month)
}

/// How many days a date comes after the first of January 1970.
pub open spec fn day_number(year: int, month: int, day: int) -> int {
    days_before_year(year) + days_before_month(year, month) + day - 1 - 719528
}

/// Each year begins as many days after the one before as that one has.
pub proof fn a_year_has_365_or_366_days(year: int)
    ensures
        days_before_year(year + 1) - days_before_year(year) == if is_leap(year) {
            366int
        } else {
            365int
        },
        days_before_month(year, 12) + days_in_month(year, 12) == if is_leap(year) {
            366int
        } else {
            365int
        },
{
    lemma_months(year);
    assert(days_before_year(year + 1) - days_before_year(year) == if is_leap(year) {
        366int
    } else {
        365int
    }) by {
        assert((year + 1 + 3) / 4 - (year + 3) / 4 == if year % 4 == 0 {
            1int
        } else {
            0int
        });
        assert((year + 1 + 99) / 100 - (year + 99) / 100 == if year % 100 == 0 {
            1int
        } else {
            0int
        });
        assert((year + 1 + 399) / 400 - (year + 399) / 400 == if year % 400 == 0 {
            1int
        } else {
            0int
        });
    }
}

proof fn lemma_months(year: int)
    ensures
        ({
            let l: int = if is_leap(year) {
                1
            } else {
                0
            };
            &&& days_before_month(year, 1) == 0
            &&& days_before_month(year, 2) == 31
            &&& days_before_month(year, 3) == 59 + l
            &&& days_before_month(year, 4) == 90 + l
            &&& days_before_month(year, 5) == 120 + l
            &&& days_before_month(year, 6) == 151 + l
            &&& days_before_month(year, 7) == 181 + l
            &&& days_before_month(year, 8) == 212 + l
            &&& days_before_month(year, 9) == 243 + l
            &&& days_before_month(year, 10) == 273 + l
            &&& days_before_month(year, 11) == 304 + l
            &&& days_before_month(year, 12) == 334 + l
        }),
{
    reveal_with_fuel(days_before_month, 13);
}

/// The first of March of a year, counted from that of the year 0.
proof fn lemma_first_of_march(year: int)
    ensures
        days_before_year(year) + 59 + (if is_leap(year) {
            1int
        } else {
            0int
        }) - 60 == 365 * year + year / 4 - year / 100 + year / 400,
{
    lemma_rounded_up_by_4(year);
    lemma_rounded_up_by_100(year);
    lemma_rounded_up_by_400(year);
    lemma_leap_sum(year);
}

proof fn lemma_rounded_up_by_4(year: int)
    ensures
        (year + 3) / 4 == year / 4 + if year % 4 == 0 {
            0int
        } else {
            1int
        },
{
}

proof fn lemma_rounded_up_by_100(year: int)
    ensures
        (year + 99) / 100 == year / 100 + if year % 100 == 0 {
            0int
        } else {
            1int
        },
{
}

proof fn lemma_rounded_up_by_400(year: int)
    ensures
        (year + 399) / 400 == year / 400 + if year % 400 == 0 {
            0int
        } else {
            1int
        },
{
}

proof fn lemma_leap_sum(year: int)
    ensures
        (if year % 4 == 0 {
            0int
        } else {
            1int
        }) - (if year % 100 == 0 {
            0int
        } else {
            1int
        }) + (if year % 400 == 0 {
            0int
        } else {
            1int
        }) + (if is_leap(year) {
            1int
        } else {
            0int
        }) == 1,
{
}

proof fn lemma_four_hundred_years(era: int, yoe: int)
    requires
        0 <= yoe < 400,
    ensures
        ({
            let y = yoe + era * 400;
            &&& y / 4 == yoe / 4 + era * 100
            &&& y / 100 == yoe / 100 + era * 4
            &&& y / 400 == era
        }),
{
}

/// The date that comes `z` days after the first of January 1970.
#[verifier::spinoff_prover]
#[verifier::rlimit(60)]
pub fn civil_from_days(z: i64) -> (r: (i64, u32, u32))
    requires
        z <= i64::MAX - 719468,
    ensures
        is_date(r.0 as int, r.1 as int, r.2 as int),
        day_number(r.0 as int, r.1 as int, r.2 as int) == z,
{
    // Days from the first of March of the year 0, and the four hundred years
    // that they fall in.
    let z0: i64 = z + 719468;
    let floor: i64 = if z0 >= 0 {
        z0 / 146097
    } else {
        (z0 - 146096) / 146097
    };
    let era: i64 = floor;
    assert(era == (z0 as int) / 146097) by {
        if z0 < 0 {
            lemma_negative_floor(z0 as int);
        }
    }
    let doe: i64 = z0 - era * 146097;
    assert(0 <= doe < 146097);
    // Centuries, runs of four years, and years; the last of each may be a day
    // longer.
    let century: i64 = if doe / 36524 < 3 {
        doe / 36524
    } else {
        3
    };
    let in_century: i64 = doe - century * 36524;
    let four: i64 = in_century / 1461;
    let in_four: i64 = in_century - four * 1461;
    let single: i64 = if in_four / 365 < 3 {
        in_four / 365
    } else {
        3
    };
    let doy: i64 = in_four - single * 365;
    let yoe: i64 = century * 100 + four * 4 + single;
    assert(0 <= doy <= 365);
    assert(0 <= four <= 24);
    assert(yoe / 4 == century * 25 + four);
    assert(yoe / 100 == century);
    assert(doe == 365 * yoe + yoe / 4 - yoe / 100 + doy);
    let y: i64 = yoe + era * 400;
    let mp: i64 = (5 * doy + 2) / 153;
    assert(0 <= mp <= 11);
    let d: i64 = doy - (153 * mp + 2) / 5 + 1;
    let m: i64 = if mp < 10 {
        mp + 3
    } else {
        mp - 9
    };
    let year: i64 = if m <= 2 {
        y + 1
    } else {
        y
    };
    proof {
        lemma_four_hundred_years(era as int, yoe as int);
        lemma_first_of_march(y as int);
        lemma_months(year as int);
        // The leap day ends a year that is counted from March.
        assert(doy == 365 ==> is_leap(y + 1)) by {
            if doy == 365 {
                assert(single == 3);
                assert(in_four == 1460);
                lemma_leap_at_the_end(y + 1, century as int, four as int, era as int);
            }
        }
        a_year_has_365_or_366_days(y as int);
        assert(days_before_year(y as int) + 59 + (if is_leap(y as int) {
            1int
        } else {
            0int
        }) + doy - 719528 == z);
        lemma_month_and_day(y as int, doy as int, mp as int, d as int, m as int, year as int);
    }
    (year, m as u32, d as u32)
}

proof fn lemma_negative_floor(z: int)
    requires
        z < 0,
    ensures
        z / 146097 == -((-(z - 146096)) / 146097),
{
}

proof fn lemma_leap_at_the_end(year: int, century: int, four: int, era: int)
    requires
        0 <= century <= 3,
        0 <= four <= 24,
        year == century * 100 + four * 4 + 4 + era * 400,
        four == 24 ==> century == 3,
    ensures
        is_leap(year),
{
}

proof fn lemma_month_and_day(y: int, doy: int, mp: int, d: int, m: int, year: int)
    requires
        0 <= doy <= 365,
        doy == 365 ==> is_leap(y + 1),
        mp == (5 * doy + 2) / 153,
        d == doy - (153 * mp + 2) / 5 + 1,
        m == if mp < 10 {
            mp + 3
        } else {
            mp - 9
        },
        year == if m <= 2 {
            y + 1
        } else {
            y
        },
    ensures
        is_date(year, m, d),
        day_number(year, m, d) == days_before_year(y) + 59 + (if is_leap(y) {
            1int
        } else {
            0int
        }) + doy - 719528,
{
    lemma_months(y);
    lemma_months(year);
    a_year_has_365_or_366_days(y);
    assert(mp == 0 || mp == 1 || mp == 2 || mp == 3 || mp == 4 || mp == 5 || mp == 6 || mp == 7
        || mp == 8 || mp == 9 || mp == 10 || mp == 11);
}

/// No two dates have the same number, so that a number of days determines the
/// date.
pub proof fn a_day_number_determines_the_date(
    y1: int,
    m1: int,
    d1: int,
    y2: int,
    m2: int,
    d2: int,
)
    requires
        is_date(y1, m1, d1),
        is_date(y2, m2, d2),
        day_number(y1, m1, d1) == day_number(y2, m2, d2),
    ensures
        y1 == y2,
        m1 == m2,
        d1 == d2,
{
    lemma_within_year(y1, m1, d1);
    lemma_within_year(y2, m2, d2);
    if y1 < y2 {
        lemma_years_grow(y1 + 1, y2);
    } else if y2 < y1 {
        lemma_years_grow(y2 + 1, y1);
    }
    lemma_months(y1);
    if m1 < m2 {
        lemma_months_grow(y1, m1 + 1, m2);
    } else if m2 < m1 {
        lemma_months_grow(y1, m2 + 1, m1);
    }
}

proof fn lemma_within_year(year: int, month: int, day: int)
    requires
        is_date(year, month, day),
    ensures
        days_before_year(year) <= days_before_year(year) + days_before_month(year, month) + day - 1
            < days_before_year(year + 1),
{
    a_year_has_365_or_366_days(year);
    lemma_months(year);
    assert(month == 1 || month == 2 || month == 3 || month == 4 || month == 5 || month == 6
        || month == 7 || month == 8 || month == 9 || month == 10 || month == 11 || month == 12);
}

proof fn lemma_years_grow(a: int, b: int)
    requires
        a <= b,
    ensures
        days_before_year(a) <= days_before_year(b),
    decreases b - a,
{
    if a < b {
        lemma_years_grow(a, b - 1);
        a_year_has_365_or_366_days(b - 1);
    }
}

proof fn lemma_months_grow(year: int, a: int, b: int)
    requires
        1 <= a <= b <= 12,
    ensures
        days_before_month(year, a) <= days_before_month(year, b),
    decreases b - a,
{
    if a < b {
        lemma_months_grow(year, a, b - 1);
    }
}

/// The characters of a moment: a date and a time of day, in UTC.
pub open spec fn moment_text(
    year: nat,
    month: nat,
    day: nat,
    hour: nat,
    minute: nat,
    second: nat,
) -> Seq<char> {
    padded(year, 4) + "-"@ + padded(month, 2) + "-"@ + padded(day, 2) + "T"@ + padded(hour, 2)
        + ":"@ + padded(minute, 2) + ":"@ + padded(second, 2) + "Z"@
}

/// The moment so many seconds after the start of 1970, as it is logged.
pub fn timestamp(secs: u64) -> (r: String)
    ensures
        exists|year: nat, month: nat, day: nat|
            {
                &&& is_date(year as int, month as int, day as int)
                &&& day_number(year as int, month as int, day as int) == secs as int / 86400
                &&& r@ == #[trigger] moment_text(
                    year,
                    month,
                    day,
                    (secs as nat % 86400) / 3600,
                    (secs as nat % 86400 % 3600) / 60,
                    secs as nat % 86400 % 60,
                )
            },
{
    let days: i64 = (secs / 86400) as i64;
    let time_of_day: u64 = secs % 86400;
    let hour: u64 = time_of_day / 3600;
    let minute: u64 = (time_of_day % 3600) / 60;
    let second: u64 = time_of_day % 60;
    let (year, month, day): (i64, u32, u32) = civil_from_days(days);
    proof {
        lemma_not_before_1970(year as int, month as int, day as int);
    }
    let y: u64 = year as u64;
    let mut s: String = concat2(&pad(y, 4), "-");
    s.append(&pad(month as u64, 2));
    s.append("-");
    s.append(&pad(day as u64, 2));
    s.append("T");
    s.append(&pad(hour, 2));
    s.append(":");
    s.append(&pad(minute, 2));
    s.append(":");
    s.append(&pad(second, 2));
    s.append("Z");
    assert(s@ == moment_text(
        y as nat,
        month as nat,
        day as nat,
        (secs as nat % 86400) / 3600,
        (secs as nat % 86400 % 3600) / 60,
        secs as nat % 86400 % 60,
    ));
    s
}

proof fn lemma_not_before_1970(year: int, month: int, day: int)
    requires
        is_date(year, month, day),
        day_number(year, month, day) >= 0,
    ensures
        year >= 1970,
{
    if year < 1970 {
        lemma_within_year(year, month, day);
        lemma_years_grow(year + 1, 1970);
    }
}

/// Whether a setting switches the dumping of failed requests on.
pub fn request_dumps_enabled(value: Option<&str>) -> (r: bool)
    ensures
        r == (value is Some && (value->0@ == "1"@ || value->0@ == "true"@)),
{
    match value {
        Some(v) => same(v, "1") || same(v, "true"),
        None => false,
    }
}

/// Nothing is dropped before the log is full, and then one entry, the oldest,
/// for each that is added.
pub proof fn only_a_full_log_drops_its_oldest_entry(lines: Seq<Seq<char>>, entry: Seq<char>)
    ensures
        lines.len() < MAX_ENTRIES ==> kept_lines(lines, entry) == lines.push(entry),
        lines.len() == MAX_ENTRIES ==> kept_lines(lines, entry) == lines.drop_first().push(entry),
        lines.len() >= MAX_ENTRIES ==> kept_lines(lines, entry).len() == MAX_ENTRIES,
{
    if lines.len() == MAX_ENTRIES {
        assert(kept_lines(lines, entry) =~= lines.drop_first().push(entry));
    }
}

/// A message of one line is logged as it is, behind the time and what it is
/// about; of a longer one every line that shows anything is there, in its
/// order, and the others are not.
pub proof fn an_entry_holds_the_whole_message(
    timestamp: Seq<char>,
    context: Seq<char>,
    line: Seq<char>,
    message: Seq<char>,
)
    requires
        !line.contains('\n'),
        line.len() > 0,
        trim(line) == line,
    ensures
        entry_text(timestamp, context, line) == "["@ + timestamp + "] "@ + context + ": "@ + line,
        shown_pieces(split(line + seq!['\n'] + message, '\n')) == seq![line] + shown_pieces(
            split(message, '\n'),
        ),
        shown_pieces(split(seq!['\n'] + message, '\n')) == shown_pieces(split(message, '\n')),
        shown_pieces(split(message, '\n')).len() > 0 ==> flat_message(line + seq!['\n'] + message)
            == line + "; "@ + flat_message(message),
        shown_pieces(split(message, '\n')).len() == 0 ==> flat_message(
            line + seq!['\n'] + message,
        ) == line,
{
    let none = Seq::<char>::empty();
    crate::text::the_first_piece_stands_in_front(line, message, '\n');
    crate::text::the_first_piece_stands_in_front(none, message, '\n');
    crate::text::the_first_piece_stands_in_front(line, none, '\n');
    assert(none + seq!['\n'] + message =~= seq!['\n'] + message);
    let rest = split(message, '\n');
    shown_pieces_follow(seq![line], rest);
    shown_pieces_follow(seq![none], rest);
    one_shown_piece(line);
    one_shown_piece(none);
    assert(trim(none) =~= none);
    assert(Seq::<Seq<char>>::empty() + shown_pieces(rest) =~= shown_pieces(rest));
    a_line_is_one_piece(line);
    assert(shown_pieces(split(line, '\n')) == seq![line]);
    let pieces = shown_pieces(rest);
    if pieces.len() > 0 {
        crate::text::a_part_in_front_is_joined(line, pieces, "; "@);
    } else {
        assert(seq![line] + pieces =~= seq![line]);
    }
}

proof fn a_line_is_one_piece(line: Seq<char>)
    requires
        !line.contains('\n'),
    ensures
        split(line, '\n') == seq![line],
{
    let none = Seq::<char>::empty();
    crate::text::the_pieces_make_up_the_text(line, '\n');
    crate::text::the_first_piece_stands_in_front(line, none, '\n');
    assert((line + seq!['\n'] + none).drop_last() =~= line);
    let pieces = split(line + seq!['\n'] + none, '\n');
    assert(pieces == seq![line] + split(none, '\n'));
    assert(pieces == split(line, '\n').push(none));
    assert(split(line, '\n') =~= pieces.drop_last());
    assert(pieces.drop_last() =~= seq![line]);
}

proof fn one_shown_piece(piece: Seq<char>)
    ensures
        shown_pieces(seq![piece]) == if trim(piece).len() > 0 {
            seq![trim(piece)]
        } else {
            Seq::<Seq<char>>::empty()
        },
{
    assert(seq![piece].drop_last() =~= Seq::<Seq<char>>::empty());
    assert(shown_pieces(Seq::<Seq<char>>::empty()) =~= Seq::<Seq<char>>::empty());
    if trim(piece).len() > 0 {
        assert(shown_pieces(seq![piece]) =~= seq![trim(piece)]);
    }
}

proof fn shown_pieces_follow(front: Seq<Seq<char>>, back: Seq<Seq<char>>)
    ensures
        shown_pieces(front + back) == shown_pieces(front) + shown_pieces(back),
    decreases back.len(),
{
    if back.len() == 0 {
        assert(front + back =~= front);
        assert(shown_pieces(front) + shown_pieces(back) =~= shown_pieces(front));
    } else {
        shown_pieces_follow(front, back.drop_last());
        assert((front + back).drop_last() =~= front + back.drop_last());
        assert(shown_pieces(front + back) =~= shown_pieces(front) + shown_pieces(back));
    }
}

/// Padding keeps a number's value, and fills it up with zeros to the width.
pub proof fn padding_keeps_the_number(n: nat, width: nat)
    ensures
        padded(n, width).len() >= width,
        padded(n, width).len() == width || padded(n, width) == decimal(n),
        crate::text::digits_value(padded(n, width)) == n,
{
    crate::text::a_number_reads_back_from_its_digits(n);
    if decimal(n).len() < width {
        zeros_in_front_are_worth_nothing((width - decimal(n).len()) as nat, decimal(n));
    }
}

proof fn zeros_in_front_are_worth_nothing(zeros: nat, digits: Seq<char>)
    ensures
        crate::text::digits_value(repeat('0', zeros) + digits) == crate::text::digits_value(digits),
    decreases digits.len(), zeros,
{
    let s = repeat('0', zeros) + digits;
    if digits.len() > 0 {
        zeros_in_front_are_worth_nothing(zeros, digits.drop_last());
        assert(s.drop_last() =~= repeat('0', zeros) + digits.drop_last());
        assert(s.last() == digits.last());
    } else if zeros > 0 {
        zeros_in_front_are_worth_nothing((zeros - 1) as nat, digits);
        assert(s.drop_last() =~= repeat('0', (zeros - 1) as nat) + digits);
        assert(s.last() == '0');
        assert(digits =~= Seq::<char>::empty());
    } else {
        assert(s =~= digits);
    }
}

/// The days are counted from the first of January 1970, and each day has the
/// number behind that of the day before it, over the ends of months and years.
pub proof fn each_day_has_the_next_number(year: int, month: int, day: int)
    requires
        is_date(year, month, day),
    ensures
        day_number(1970, 1, 1) == 0,
        day < days_in_month(year, month) ==> is_date(year, month, day + 1) && day_number(
            year,
            month,
            day + 1,
        ) == day_number(year, month, day) + 1,
        day == days_in_month(year, month) && month < 12 ==> is_date(year, month + 1, 1)
            && day_number(year, month + 1, 1) == day_number(year, month, day) + 1,
        day == days_in_month(year, month) && month == 12 ==> day_number(year + 1, 1, 1)
            == day_number(year, month, day) + 1,
{
    a_year_has_365_or_366_days(year);
}

/// The months have the lengths that they have.
pub proof fn the_months_have_their_lengths(year: int)
    ensures
        days_in_month(year, 1) == 31,
        days_in_month(year, 2) == 28 || days_in_month(year, 2) == 29,
        days_in_month(year, 2) == 29 <==> (year % 4 == 0 && year % 100 != 0) || year % 400 == 0,
        days_in_month(year, 3) == 31,
        days_in_month(year, 4) == 30,
        days_in_month(year, 5) == 31,
        days_in_month(year, 6) == 30,
        days_in_month(year, 7) == 31,
        days_in_month(year, 8) == 31,
        days_in_month(year, 9) == 30,
        days_in_month(year, 10) == 31,
        days_in_month(year, 11) == 30,
        days_in_month(year, 12) == 31,
{
}

/// A moment is written from the largest unit to the smallest, each in the
/// place that is kept for it, and reads back from there.
pub proof fn a_moment_reads_back(
    year: nat,
    month: nat,
    day: nat,
    hour: nat,
    minute: nat,
    second: nat,
)
    requires
        year < 10000,
        month < 100,
        day < 100,
        hour < 100,
        minute < 100,
        second < 100,
    ensures
        ({
            let s = moment_text(year, month, day, hour, minute, second);
            &&& s.len() == 20
            &&& crate::text::digits_value(s.subrange(0, 4)) == year
            &&& s[4] == '-'
            &&& crate::text::digits_value(s.subrange(5, 7)) == month
            &&& s[7] == '-'
            &&& crate::text::digits_value(s.subrange(8, 10)) == day
            &&& s[10] == 'T'
            &&& crate::text::digits_value(s.subrange(11, 13)) == hour
            &&& s[13] == ':'
            &&& crate::text::digits_value(s.subrange(14, 16)) == minute
            &&& s[16] == ':'
            &&& crate::text::digits_value(s.subrange(17, 19)) == second
            &&& s[19] == 'Z'
        }),
{
    let s = moment_text(year, month, day, hour, minute, second);
    reveal_strlit("-");
    reveal_strlit("T");
    reveal_strlit(":");
    reveal_strlit("Z");
    a_small_number_fits(year, 4);
    a_small_number_fits(month, 2);
    a_small_number_fits(day, 2);
    a_small_number_fits(hour, 2);
    a_small_number_fits(minute, 2);
    a_small_number_fits(second, 2);
    assert(s.subrange(0, 4) =~= padded(year, 4));
    assert(s.subrange(5, 7) =~= padded(month, 2));
    assert(s.subrange(8, 10) =~= padded(day, 2));
    assert(s.subrange(11, 13) =~= padded(hour, 2));
    assert(s.subrange(14, 16) =~= padded(minute, 2));
    assert(s.subrange(17, 19) =~= padded(second, 2));
}

proof fn a_small_number_fits(n: nat, width: nat)
    requires
        width == 2 && n < 100 || width == 4 && n < 10000,
    ensures
        padded(n, width).len() == width,
        crate::text::digits_value(padded(n, width)) == n,
{
    padding_keeps_the_number(n, width);
    reveal_with_fuel(decimal, 5);
    assert(decimal(n).len() <= width);
}

} // verus!
