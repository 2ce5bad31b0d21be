//! Places in a text by the byte: how wide its characters are in UTF-8, and
//! which byte indices lie between two of them.

use vstd::prelude::*;
use vstd::string::*;

use crate::text::chars_of;

verus! {

/// How many bytes a character takes in UTF-8.
pub open spec fn char_width(c: char) -> nat {
    let n = c as u32;
    if n < 0x80 {
        1
    } else if n < 0x800 {
        2
    } else if n < 0x10000 {
        3
    } else {
        4
    }
}

/// How many bytes a text takes in UTF-8.
pub open spec fn byte_width(s: Seq<char>) -> nat
    decreases s.len(),
{
    if s.len() == 0 {
        0
    } else {
        byte_width(s.drop_last()) + char_width(s.last())
    }
}

proof fn lemma_width_of_first(s: Seq<char>)
    requires
        s.len() > 0,
    ensures
        byte_width(s) == char_width(s[0]) + byte_width(s.drop_first()),
    decreases s.len(),
{
    if s.len() == 1 {
        assert(s.drop_last() =~= Seq::empty());
        assert(s.drop_first() =~= Seq::empty());
    } else {
        lemma_width_of_first(s.drop_last());
        assert(s.drop_last().drop_first() =~= s.drop_first().drop_last());
        assert(s.drop_first().last() == s.last());
    }
}

/// The width of a text is the length of its UTF-8 encoding.
pub proof fn the_width_is_the_encoded_length(s: Seq<char>)
    ensures
        byte_width(s) == vstd::utf8::encode_utf8(s).len(),
    decreases s.len(),
{
    if s.len() > 0 {
        lemma_width_of_first(s);
        the_width_is_the_encoded_length(s.drop_first());
        vstd::utf8::char_is_scalar(s[0]);
        assert(vstd::utf8::encode_scalar(s[0] as u32).len() == char_width(s[0]));
    }
}

pub proof fn lemma_width_grows(s: Seq<char>, i: int, j: int)
    requires
        0 <= i <= j <= s.len(),
    ensures
        byte_width(s.take(i)) + (j - i) <= byte_width(s.take(j)),
    decreases j - i,
{
    if i < j {
        lemma_width_grows(s, i, j - 1);
        assert(s.take(j).drop_last() =~= s.take(j - 1));
    }
}

/// Whether a byte index lies between two characters, in front of the first or
/// behind the last.
pub open spec fn on_boundary(s: Seq<char>, cursor: nat) -> bool {
    exists|k: int| 0 <= k <= s.len() && byte_width(#[trigger] s.take(k)) == cursor
}

/// How many characters stand in front of a byte index.
pub open spec fn chars_before(s: Seq<char>, cursor: nat) -> int {
    choose|k: int| 0 <= k <= s.len() && byte_width(#[trigger] s.take(k)) == cursor
}

/// No two places in a text have the same byte index.
pub proof fn a_cursor_has_one_place(s: Seq<char>, cursor: nat, k: int)
    requires
        0 <= k <= s.len(),
        byte_width(s.take(k)) == cursor,
    ensures
        on_boundary(s, cursor),
        chars_before(s, cursor) == k,
{
    let c = chars_before(s, cursor);
    if c < k {
        lemma_width_grows(s, c, k);
    } else if k < c {
        lemma_width_grows(s, k, c);
    }
}

pub fn width_of(c: char) -> (r: usize)
    ensures
        r == char_width(c),
        1 <= r <= 4,
{
    let n: u32 = c as u32;
    if n < 0x80 {
        1
    } else if n < 0x800 {
        2
    } else if n < 0x10000 {
        3
    } else {
        4
    }
}

/// The number of characters in front of a byte index.
pub fn char_index(chars: &Vec<char>, cursor: usize) -> (k: usize)
    requires
        on_boundary(chars@, cursor as nat),
    ensures
        k <= chars@.len(),
        k == chars_before(chars@, cursor as nat),
        byte_width(chars@.take(k as int)) == cursor,
{
    let ghost at = chars_before(chars@, cursor as nat);
    let count: usize = chars.len();
    let mut k: usize = 0;
    let mut width: usize = 0;
    assert(chars@.take(0) == Seq::<char>::empty());
    proof {
        lemma_width_grows(chars@, 0, at);
    }
    while width < cursor
        invariant
            count == chars@.len(),
            k <= at <= chars@.len(),
            byte_width(chars@.take(at)) == cursor,
            byte_width(chars@.take(k as int)) == width,
            width <= cursor,
        decreases cursor - width,
    {
        proof {
            if k == at {
                assert(false);
            }
            assert(chars@.take(k + 1).drop_last() == chars@.take(k as int));
            lemma_width_grows(chars@, k + 1, at);
        }
        width = width + width_of(chars[k]);
        k = k + 1;
    }
    proof {
        a_cursor_has_one_place(chars@, cursor as nat, k as int);
    }
    k
}

pub proof fn lemma_width_of_sum(a: Seq<char>, b: Seq<char>)
    ensures
        byte_width(a + b) == byte_width(a) + byte_width(b),
    decreases b.len(),
{
    if b.len() == 0 {
        assert(a + b =~= a);
    } else {
        lemma_width_of_sum(a, b.drop_last());
        assert((a + b).drop_last() =~= a + b.drop_last());
        assert((a + b).last() == b.last());
    }
}

pub proof fn lemma_caret_in_bounds(s: Seq<char>, cursor: nat)
    requires
        on_boundary(s, cursor),
    ensures
        0 <= chars_before(s, cursor) <= s.len(),
{
}

/// The length of a text in bytes.
pub fn total_width(s: &str) -> (r: usize)
    ensures
        r == byte_width(s@),
{
    proof {
        the_width_is_the_encoded_length(s@);
    }
    s.as_bytes().len()
}

/// The number of characters in front of a byte index; `None` where it lies
/// within a character or behind the end.
pub fn boundary(chars: &Vec<char>, at: usize) -> (r: Option<usize>)
    ensures
        match r {
            Some(k) => on_boundary(chars@, at as nat) && k == chars_before(chars@, at as nat) && k
                <= chars@.len(),
            None => !on_boundary(chars@, at as nat),
        },
{
    let mut k: usize = 0;
    let mut width: usize = 0;
    assert(chars@.take(0) =~= Seq::<char>::empty());
    while width < at && k < chars.len()
        invariant
            k <= chars@.len(),
            byte_width(chars@.take(k as int)) == width,
            width <= at,
        decreases chars@.len() - k,
    {
        let w: usize = width_of(chars[k]);
        assert(chars@.take(k + 1).drop_last() =~= chars@.take(k as int));
        if w > at - width {
            proof {
                if on_boundary(chars@, at as nat) {
                    let n = chars_before(chars@, at as nat);
                    if n <= k {
                        lemma_width_grows(chars@, n, k as int);
                    } else {
                        lemma_width_grows(chars@, k + 1, n);
                    }
                }
            }
            return None;
        }
        width = width + w;
        k = k + 1;
    }
    if width == at {
        proof {
            a_cursor_has_one_place(chars@, at as nat, k as int);
        }
        Some(k)
    } else {
        proof {
            if on_boundary(chars@, at as nat) {
                let n = chars_before(chars@, at as nat);
                lemma_width_grows(chars@, n, k as int);
            }
        }
        None
    }
}

/// Where a text is cut to have at most `limit` bytes.
pub open spec fn cut_at(s: Seq<char>, limit: nat) -> nat {
    if byte_width(s) < limit {
        byte_width(s)
    } else {
        limit
    }
}

/// Whether a text can be cut there, between two characters.
pub open spec fn can_cut(s: Seq<char>, limit: nat) -> bool {
    on_boundary(s, cut_at(s, limit))
}

/// The first bytes of a text, or all of a shorter one.
pub open spec fn cut(s: Seq<char>, limit: nat) -> Seq<char> {
    s.take(chars_before(s, cut_at(s, limit)))
}

/// The first bytes of a text, or all of a shorter one.
pub fn cut_bytes(s: &str, limit: usize) -> (r: &str)
    requires
        can_cut(s@, limit as nat),
    ensures
        r@ == cut(s@, limit as nat),
{
    let chars: Vec<char> = chars_of(s);
    let total: usize = total_width(s);
    let at: usize = if total < limit {
        total
    } else {
        limit
    };
    let k: usize = char_index(&chars, at);
    assert(s@.subrange(0, k as int) =~= s@.take(k as int));
    s.substring_char(0, k)
}

/// How an id is shown: its first eight bytes, or all of one that is shorter or
/// that cannot be cut there.
pub open spec fn shown_id(id: Seq<char>) -> Seq<char> {
    if can_cut(id, 8) {
        cut(id, 8)
    } else {
        id
    }
}

/// How an id is shown.
pub fn short_id_of(id: &str) -> (r: &str)
    ensures
        r@ == shown_id(id@),
{
    let chars: Vec<char> = chars_of(id);
    let total: usize = total_width(id);
    let at: usize = if total < 8 {
        total
    } else {
        8
    };
    if boundary(&chars, at).is_some() {
        cut_bytes(id, 8)
    } else {
        id
    }
}

/// A text in ASCII can be cut anywhere, and has as many characters as bytes.
pub proof fn ascii_can_be_cut_anywhere(s: Seq<char>, limit: nat)
    requires
        vstd::utf8::is_ascii_chars(s),
    ensures
        byte_width(s) == s.len(),
        can_cut(s, limit),
        cut(s, limit) == if s.len() < limit {
            s
        } else {
            s.take(limit as int)
        },
{
    lemma_ascii_width(s, s.len() as int);
    assert(s.take(s.len() as int) =~= s);
    let at = cut_at(s, limit);
    lemma_ascii_width(s, at as int);
    a_cursor_has_one_place(s, at, at as int);
}

proof fn lemma_ascii_width(s: Seq<char>, n: int)
    requires
        vstd::utf8::is_ascii_chars(s),
        0 <= n <= s.len(),
    ensures
        byte_width(s.take(n)) == n,
    decreases n,
{
    if n > 0 {
        lemma_ascii_width(s, n - 1);
        assert(s.take(n).drop_last() =~= s.take(n - 1));
        assert(s.take(n).last() == s[n - 1]);
    }
}

/// An id in ASCII is shown by its first eight characters, and a shorter one
/// whole.
pub proof fn an_id_is_shown_by_its_start(id: Seq<char>)
    requires
        vstd::utf8::is_ascii_chars(id),
    ensures
        id.len() >= 8 ==> shown_id(id) == id.take(8),
        id.len() < 8 ==> shown_id(id) == id,
{
    ascii_can_be_cut_anywhere(id, 8);
}

} // verus!
