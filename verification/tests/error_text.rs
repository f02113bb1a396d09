use sqparse::annotation::Gutter;
use sqparse::error_display::render_error;
use sqparse::text::repeat;
use sqparse::{parse, tokenize, Flavor};

#[test]
fn report_of_a_range_on_one_line() {
    let text = render_error(6..9, "a\nfoo bar\nb");
    assert_eq!(text, "   |\n 2 | foo bar\n   |     ^^^");
}

#[test]
fn report_of_an_empty_range_has_one_caret() {
    let text = render_error(1..1, "ab");
    assert_eq!(text, "   |\n 1 | ab\n   |  ^");
}

#[test]
fn report_shows_tabs_as_spaces() {
    let text = render_error(1..2, "\tx");
    assert_eq!(text, "   |\n 1 |  x\n   |  ^");
}

#[test]
fn report_of_a_range_over_lines() {
    let text = render_error(1..7, "ab\ncd\nef");
    assert_eq!(text, "   |\n 1 |   ab\n   |  __^\n 2 | | cd\n 3 | | ef\n   | |_^");
}

#[test]
fn report_pads_line_numbers_to_the_widest() {
    let source = "a\nb\nc\nd\ne\nf\ng\nh\ni\nj\nk";
    // From `i` on line 9 to `j` on line 10.
    let text = render_error(16..19, source);
    assert_eq!(text, "    |\n  9 |   i\n    |  _^\n 10 | | j\n    | |_^");
}

#[test]
fn parse_error_text_names_the_construct() {
    let source = "function MyFunc { }";
    let tokens = tokenize(source, Flavor::SquirrelRespawn).unwrap();
    let err = parse(&tokens, Flavor::SquirrelRespawn).unwrap_err();
    let text = err.display_text(source, &tokens);
    assert!(text.starts_with("   |\n 1 | function MyFunc { }\n   |                 ^ expected `(`"));
    assert!(text.contains("\n\n"));
    assert!(text.ends_with(" in this function declaration") || text.contains(" in this "));
}

#[test]
fn gutter_parts() {
    let gutter = Gutter::new(120);
    assert_eq!(gutter.file(), "   -->");
    assert_eq!(gutter.empty(), "    |");
    assert_eq!(gutter.separator(), "    =");
    assert_eq!(gutter.ellipsis(), "...  ");
    assert_eq!(gutter.number(7), "  7 |");
}

#[test]
fn repeat_writes_text_the_given_number_of_times() {
    assert_eq!(repeat(3, "ab"), "ababab");
    assert_eq!(repeat(0, "x"), "");
}
