use cliux::layout::{adjusted_width, is_emoji, pad, pad_from, split_lines, trim, width, wrap_text};

#[test]
fn width_of_ascii_is_its_length() {
    assert_eq!(width("Hello, world!"), 13);
    assert_eq!(width(" ~ "), 3);
}

#[test]
fn width_of_empty_is_zero() {
    assert_eq!(width(""), 0);
}

#[test]
fn width_counts_wide_emoji_twice() {
    assert_eq!(width("\u{1F44B}"), 2);
}

#[test]
fn width_widens_narrow_symbol_in_emoji_range() {
    // U+2600 is one column in the Unicode tables; the symbol range makes it two.
    assert_eq!(width("\u{2600}"), 2);
    assert_eq!(width("a\u{2600}b"), 4);
}

#[test]
fn width_counts_combining_marks_with_their_base() {
    assert_eq!(width("e\u{301}"), 1);
}

#[test]
fn is_emoji_needs_one_code_point_in_range() {
    assert!(is_emoji("\u{2600}"));
    assert!(is_emoji("\u{1F300}"));
    assert!(!is_emoji("a"));
    assert!(!is_emoji("\u{2600}\u{FE0E}"));
    assert!(!is_emoji(""));
}

#[test]
fn pad_fills_to_width() {
    assert_eq!(pad("Hello", 10), "Hello     ");
}

#[test]
fn pad_never_truncates() {
    assert_eq!(pad("Rust", 3), "Rust");
    assert_eq!(pad("Rust", 4), "Rust");
}

#[test]
fn pad_counts_emoji_width() {
    assert_eq!(pad("\u{1F44B}", 5), "\u{1F44B}   ");
}

#[test]
fn pad_result_has_target_width_and_keeps_prefix() {
    for (s, w) in [("abc", 7usize), ("abcdef", 2), ("", 4), ("\u{1F44B}x", 6)] {
        let p = pad(s, w);
        assert!(p.starts_with(s));
        assert_eq!(width(&p), std::cmp::max(w, width(s)));
    }
}

#[test]
fn pad_twice_is_pad_once() {
    let once = pad("abc", 8);
    assert_eq!(pad(&once, 8), once);
}

#[test]
fn wrap_long_sentence_at_twenty() {
    let lines = wrap_text("This is a very long sentence that needs to be wrapped.", 20);
    assert_eq!(lines, vec!["This is a very long", "sentence that needs", "to be wrapped."]);
}

#[test]
fn wrap_keeps_paragraphs_apart() {
    let text = "First paragraph.\nSecond paragraph is a bit longer and needs wrapping.";
    assert_eq!(
        wrap_text(text, 25),
        vec!["First paragraph.", "Second paragraph is a bit", "longer and needs", "wrapping."]
    );
}

#[test]
fn wrap_puts_long_word_alone() {
    assert_eq!(
        wrap_text("hello extraordinarily long", 5),
        vec!["hello", "extraordinarily", "long"]
    );
}

#[test]
fn wrap_line_may_reach_width_exactly() {
    assert_eq!(wrap_text("ab cd ef", 5), vec!["ab cd", "ef"]);
}

#[test]
fn wrap_empty_paragraphs_give_no_lines() {
    assert_eq!(wrap_text("", 10), Vec::<String>::new());
    assert_eq!(wrap_text("a\n\n  \nb", 10), vec!["a", "b"]);
}

#[test]
fn wrap_collapses_white_space_runs() {
    assert_eq!(wrap_text("  a \t b   c  ", 80), vec!["a b c"]);
}

#[test]
fn wrapped_lines_fit_or_hold_one_word() {
    let text = "a bb ccc dddd eeeee ffffff ggggggg hhhhhhhh";
    for w in 1..12 {
        for line in wrap_text(text, w) {
            assert!(line.len() <= w || !line.contains(' '), "{:?} at {}", line, w);
        }
    }
}

#[test]
fn rewrap_of_joined_lines_is_the_same() {
    let text = "The quick brown fox jumps over the lazy dog and keeps on running far away.";
    for w in 1..30 {
        let lines = wrap_text(text, w);
        let joined = lines.join(" ");
        assert_eq!(wrap_text(&joined, w), lines);
    }
}

#[test]
fn rewrap_is_idempotent() {
    let text = "one two three four five six seven eight nine ten";
    let once = wrap_text(text, 9).join(" ");
    let twice = wrap_text(&once, 9).join(" ");
    assert_eq!(twice, once);
}

#[test]
fn split_lines_follows_line_feeds() {
    assert_eq!(split_lines("a\r\nb\n"), vec!["a", "b"]);
    assert_eq!(split_lines(""), Vec::<String>::new());
    assert_eq!(split_lines("\n"), vec![""]);
    assert_eq!(split_lines("x\n\ny"), vec!["x", "", "y"]);
    assert_eq!(split_lines("z\r"), vec!["z\r"]);
}

#[test]
fn trim_removes_outer_white_space() {
    assert_eq!(trim("  hi there \t\n"), "hi there");
    assert_eq!(trim("   "), "");
    assert_eq!(trim("\u{3000}x\u{a0}"), "x");
}

#[test]
fn adjusted_width_widens_only_single_emoji_of_width_one() {
    assert_eq!(adjusted_width("\u{2600}", 1), 2);
    assert_eq!(adjusted_width("\u{2600}", 2), 2);
    assert_eq!(adjusted_width("\u{1F44B}", 2), 2);
    assert_eq!(adjusted_width("a", 1), 1);
    assert_eq!(adjusted_width("\u{2600}\u{FE0E}", 1), 1);
    assert_eq!(adjusted_width("\u{7}", 0), 0);
}

#[test]
fn pad_from_adds_the_shortfall() {
    assert_eq!(pad_from("ab", 2, 5), "ab   ");
    assert_eq!(pad_from("ab", 7, 5), "ab");
    assert_eq!(pad_from("", 0, 2), "  ");
}
