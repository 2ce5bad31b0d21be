use comms::wrap::{text_width, wrap, wrap_indented, wrap_indented_to, wrap_to};

#[test]
fn wraps_long_line_at_word_boundaries() {
    let text = "one two three four five six seven eight nine ten";
    let wrapped = wrap_to(text, 20);
    for line in wrapped.lines() {
        assert!(line.len() <= 20);
    }
    // Sanity: no word got split (every wrapped line's words are a
    // subsequence of the original text's words).
    let words: Vec<&str> = text.split_whitespace().collect();
    let wrapped_words: Vec<&str> = wrapped.split_whitespace().collect();
    assert_eq!(words, wrapped_words);
    assert_eq!(wrapped, "one two three four\nfive six seven eight\nnine ten");
}

#[test]
fn preserves_existing_line_breaks() {
    let text = "line one\nline two\n\nline three";
    let wrapped = wrap(text);
    assert_eq!(wrapped.lines().count(), 4);
    assert_eq!(wrapped.lines().nth(2), Some(""));
}

#[test]
fn lines_but_the_first_are_indented() {
    assert_eq!(wrap_indented_to("a\nb\nc", "  ", 20), "a\n  b\n  c");
    assert_eq!(wrap_indented("a\nb", " "), "a\n b");
}

#[test]
fn the_width_is_never_less_than_twenty_columns() {
    assert!(text_width() >= 20);
}
