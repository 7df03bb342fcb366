use cliux::layout::width;
use cliux::{Boxed, Confirm, Divider, Input, List, Note, Section, Table};

fn rule(left: char, fill: char, n: usize, right: char) -> String {
    format!("{}{}{}", left, fill.to_string().repeat(n), right)
}

#[test]
fn boxed_hello_world() {
    let lines = Boxed::new("Hello").content("World").width(50).render();
    assert_eq!(lines.len(), 5);
    assert_eq!(lines[0], rule('╭', '─', 50, '╮'));
    assert_eq!(lines[1], format!("│ Hello{} │", " ".repeat(43)));
    assert_eq!(lines[2], rule('├', '─', 50, '┤'));
    assert_eq!(lines[3], format!("│ World{} │", " ".repeat(43)));
    assert_eq!(lines[4], rule('╰', '─', 50, '╯'));
    for line in &lines {
        assert_eq!(width(line), 52);
    }
}

#[test]
fn boxed_rows_per_content_line() {
    let lines = Boxed::new("T").content("a\nbb\n").width(6).render();
    assert_eq!(
        lines,
        vec!["╭──────╮", "│ T    │", "├──────┤", "│ a    │", "│ bb   │", "╰──────╯"]
    );
}

#[test]
fn boxed_narrower_than_frame_clamps_to_zero() {
    let lines = Boxed::new("Title").width(1).render();
    assert_eq!(lines, vec!["╭─╮", "│ Title │", "├─┤", "╰─╯"]);
}

#[test]
fn table_with_given_widths() {
    let lines = Table::new()
        .headers(&["Name", "Status"])
        .row(&["cliux", "active"])
        .row(&["other", "pending"])
        .widths(&[20, 10])
        .bordered(true)
        .render();
    let border = format!("+{}+{}+", "-".repeat(20), "-".repeat(10));
    assert_eq!(
        lines,
        vec![
            border.clone(),
            "| Name               | Status   |".to_string(),
            border.clone(),
            "| cliux              | active   |".to_string(),
            "| other              | pending  |".to_string(),
            border,
        ]
    );
    for line in &lines {
        assert_eq!(width(line), 20 + 10 + 3);
    }
}

#[test]
fn table_derives_widths_from_cells() {
    let lines = Table::new().headers(&["A", "Bb"]).row(&["ccc", "d"]).render();
    assert_eq!(
        lines,
        vec!["+-----+----+", "| A   | Bb |", "+-----+----+", "| ccc | d  |", "+-----+----+"]
    );
}

#[test]
fn table_without_borders() {
    let lines = Table::new().headers(&["A", "Bb"]).row(&["ccc", "d"]).bordered(false).render();
    assert_eq!(lines, vec![" A     Bb ", " ccc   d  "]);
}

#[test]
fn table_without_headers_counts_first_row() {
    let lines = Table::new().row(&["x", "yy"]).row(&["zzz", "w"]).render();
    assert_eq!(lines, vec!["| x   | yy |", "| zzz | w  |", "+-----+----+"]);
}

#[test]
fn table_ragged_rows_fill_or_drop_cells() {
    let lines = Table::new()
        .headers(&["A", "B"])
        .row(&["x"])
        .row(&["p", "q", "r"])
        .widths(&[3, 3])
        .render();
    assert_eq!(
        lines,
        vec!["+---+---+", "| A | B |", "+---+---+", "| x |   |", "| p | q |", "+---+---+"]
    );
}

#[test]
fn empty_table() {
    assert_eq!(Table::new().render(), vec!["+"]);
    assert_eq!(Table::new().bordered(false).render(), Vec::<String>::new());
}

#[test]
fn list_custom_bullet_wraps_with_indent() {
    let item = "This is a very long list item that needs to be wrapped across multiple lines.";
    let lines = List::new(vec![item]).bullet("*").width(40).render();
    assert_eq!(
        lines,
        vec![
            "* This is a very long list item that",
            "  needs to be wrapped across multiple",
            "  lines.",
        ]
    );
    for line in &lines[1..] {
        assert!(line.starts_with("  "));
        assert!(!line[2..].starts_with(' '));
    }
}

#[test]
fn list_default_bullet() {
    assert_eq!(List::new(vec!["a", "b"]).render(), vec!["• a", "• b"]);
}

#[test]
fn list_numbered() {
    let items = vec!["a", "b", "c", "d", "e", "f", "g", "h", "i", "j"];
    let lines = List::new(items).numbered().render();
    assert_eq!(lines[0], "1. a");
    assert_eq!(lines[8], "9. i");
    assert_eq!(lines[9], "10. j");
}

#[test]
fn list_numbered_wrap_indents_by_number_width() {
    let lines = List::new(vec!["aa bb cc"]).numbered().width(8).render();
    assert_eq!(lines, vec!["1. aa bb", "   cc"]);
}

#[test]
fn list_bullet_after_numbered() {
    assert_eq!(List::new(vec!["x"]).numbered().bullet("-").render(), vec!["- x"]);
}

#[test]
fn section_splits_lines() {
    let lines = Section::new("T").content("ab\ncd").width(4).style('=').render();
    assert_eq!(lines, vec!["T:", "====", "ab  ", "cd  "]);
}

#[test]
fn section_wraps() {
    let lines = Section::new("S").content("one two three").width(7).wrap(true).render();
    assert_eq!(lines, vec!["S:", "───────", "one two", "three  "]);
}

#[test]
fn section_defaults() {
    let lines = Section::new("Intro").content("x").render();
    assert_eq!(lines[1], "─".repeat(50));
    assert_eq!(lines[2], format!("x{}", " ".repeat(49)));
}

#[test]
fn divider_lines() {
    assert_eq!(Divider::new(5).render(), "─────");
    assert_eq!(Divider::new(3).style('=').render(), "===");
    assert_eq!(Divider::new(0).render(), "");
}

#[test]
fn note_plain() {
    assert_eq!(Note::new("Hi").width(10).render(), vec!["╭────────╮", "│ Hi     │", "╰────────╯"]);
}

#[test]
fn note_ascii_frame() {
    assert_eq!(
        Note::new("Hi").style("+").width(10).render(),
        vec!["+--------+", "| Hi     |", "+--------+"]
    );
}

#[test]
fn note_unknown_style_is_square() {
    assert_eq!(
        Note::new("Hi").style("zigzag").width(6).render(),
        vec!["┌────┐", "│ Hi │", "└────┘"]
    );
}

#[test]
fn note_kinds() {
    let warning = Note::new("Careful").kind("warning").width(20).render();
    assert!(warning[1].starts_with("│ \x1b[1;33m\u{26a0}\u{fe0f} Careful"));
    assert!(warning[1].ends_with("\x1b[0m │"));
    let tip = Note::new("t").kind("tip").render();
    assert!(tip[1].starts_with("│ \x1b[32m\u{1f4a1} t"));
    let info = Note::new("i").kind("info").render();
    assert!(info[1].starts_with("│ \x1b[34m\u{2139}\u{fe0f} i"));
    let other = Note::new("o").kind("other").width(6).render();
    assert_eq!(other[1], "│ o  │");
}

#[test]
fn note_icon_and_colour() {
    let lines = Note::new("x").icon("*").color("Cyan").bold(true).width(8).render();
    assert_eq!(lines[1], "│ \x1b[1;36m* x \x1b[0m │");
}

#[test]
fn confirm_frame() {
    let lines = Confirm::new("Delete?").width(15).render();
    assert_eq!(
        lines,
        vec![rule('╭', '─', 15, '╮'), "│Delete? (y/n)  │".to_string(), rule('╰', '─', 15, '╯')]
    );
    let styled = Confirm::new("Go").color("red").style("square").width(8).render();
    assert_eq!(styled[1], "│\x1b[31mGo (y/n)\x1b[0m│");
    assert_eq!(styled[0], rule('┌', '─', 8, '┐'));
}

#[test]
fn confirm_answers() {
    let c = Confirm::new("Go?");
    assert_eq!(c.answer(Some(" YES\n")), Some(true));
    assert_eq!(c.answer(Some("y")), Some(true));
    assert_eq!(c.answer(Some("No")), Some(false));
    assert_eq!(c.answer(Some("n\r\n")), Some(false));
    assert_eq!(c.answer(Some("\n")), Some(false));
    assert_eq!(c.answer(Some("maybe")), None);
    assert_eq!(c.answer(None), Some(false));
    let d = Confirm::new("Go?").default(true);
    assert_eq!(d.answer(Some("  ")), Some(true));
    assert_eq!(d.answer(None), Some(true));
    assert_eq!(d.decide("yes"), Some(true));
    assert_eq!(d.decide("YES"), None);
}

#[test]
fn input_frame() {
    assert_eq!(
        Input::new("Name?").width(8).render(),
        vec![rule('╭', '─', 8, '╮'), "│Name?   │".to_string(), rule('╰', '─', 8, '╯')]
    );
    let b = Input::new("N").style("+").bold(true).width(3).render();
    assert_eq!(b, vec!["+---+", "|\x1b[1mN  \x1b[0m|", "+---+"]);
}

#[test]
fn input_answers() {
    let i = Input::new("Name?");
    assert_eq!(i.answer("  bob \n"), "bob");
    assert_eq!(i.answer("\n"), "");
    let d = Input::new("Name?").default("anon");
    assert_eq!(d.answer(""), "anon");
    assert_eq!(d.answer("  "), "anon");
    let m = Input::new("Secret").mask(true);
    assert!(m.is_masked());
    assert_eq!(m.answer(" x "), " x ");
}
