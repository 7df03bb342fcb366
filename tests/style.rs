use cliux::components::frame::get_border;
use cliux::style::{colour_from_lowercase, parse_colour, Color};
use cliux::{Label, Tag};

#[test]
fn colour_names_ignore_case() {
    assert_eq!(parse_colour("Red"), Some(Color::Red));
    assert_eq!(parse_colour("MAGENTA"), Some(Color::Purple));
    assert_eq!(parse_colour("purple"), Some(Color::Purple));
    assert_eq!(parse_colour("black"), Some(Color::Black));
}

#[test]
fn unknown_colour_is_none() {
    assert_eq!(parse_colour("zigzag"), None);
    assert_eq!(parse_colour(""), None);
}

#[test]
fn lowercase_names_map_to_colours() {
    assert_eq!(colour_from_lowercase("cyan"), Some(Color::Cyan));
    assert_eq!(colour_from_lowercase("white"), Some(Color::White));
    assert_eq!(colour_from_lowercase("Cyan"), None);
}

#[test]
fn unknown_style_key_gets_square_glyphs() {
    assert_eq!(get_border("zigzag"), get_border("square"));
    assert_eq!(get_border("").top_left, '┌');
}

#[test]
fn style_keys_pick_their_glyphs() {
    let r = get_border("rounded");
    assert_eq!((r.top_left, r.top_right, r.bottom_left, r.bottom_right), ('╭', '╮', '╰', '╯'));
    let a = get_border("+");
    assert_eq!((a.top_left, a.horizontal, a.vertical), ('+', '-', '|'));
    let s = get_border("square");
    assert_eq!((s.top_left, s.bottom_right, s.horizontal, s.vertical), ('┌', '┘', '─', '│'));
}

#[test]
fn plain_label_is_bracketed_text() {
    assert_eq!(Label::new("Done").inline(), "[Done]");
}

#[test]
fn label_presets_colour_and_bold() {
    assert_eq!(Label::new("INFO").style("info").inline(), "\x1b[1;34m[INFO]\x1b[0m");
    assert_eq!(Label::new("ok").style("success").inline(), "\x1b[32m[ok]\x1b[0m");
    assert_eq!(Label::new("bad").style("error").inline(), "\x1b[1;31m[bad]\x1b[0m");
    assert_eq!(Label::new("x").style("other").inline(), "[x]");
}

#[test]
fn label_bold_without_colour() {
    assert_eq!(Label::new("b").bold(true).inline(), "\x1b[1m[b]\x1b[0m");
}

#[test]
fn label_unknown_colour_is_uncoloured() {
    assert_eq!(Label::new("y").color("zigzag").inline(), "[y]");
}

#[test]
fn tag_wrappers() {
    assert_eq!(Tag::new("draft").inline(), "[draft]");
    assert_eq!(Tag::new("beta").rounded().inline(), "(beta)");
    assert_eq!(Tag::new("admin").curly().inline(), "{admin}");
}

#[test]
fn tag_styles() {
    assert_eq!(
        Tag::new("beta").rounded().color("yellow").bold(true).inline(),
        "\x1b[1;33m(beta)\x1b[0m"
    );
    assert_eq!(Tag::new("admin").curly().color("Red").inline(), "\x1b[31m{admin}\x1b[0m");
}
