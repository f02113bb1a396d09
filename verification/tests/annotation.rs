use sqparse::annotation::formats::{MultiLineFormatDisplay, SingleLineFormatDisplay};
use sqparse::annotation::line_printer::LinePrinter;
use sqparse::annotation::{get_line_containing, FormatData, Gutter, Mode};
use sqparse::{display_annotations, display_error, Annotation};

#[test]
fn single_line_annotation_layout() {
    let source = "highlight me!";
    let annotations = [Annotation {
        mode: Mode::Info,
        text: "this is me!".to_string(),
        note: "".to_string(),
        highlight: 10..12,
        visible: 10..12,
    }];
    let display = display_annotations(Some("file.txt"), source, &annotations);
    assert_eq!(display.file_name, Some("file.txt"));
    assert_eq!(display.gutter.number_width(), 1);
    assert_eq!(display.format_data.len(), 1);
    match &display.format_data[0] {
        FormatData::SingleLine { line, line_number, line_highlight } => {
            assert_eq!(*line, "highlight me!");
            assert_eq!(*line_number, 1);
            assert_eq!(*line_highlight, 10..12);
        }
        other => panic!("unexpected {:?}", other),
    }
    assert_eq!(display.format_data[0].first_line_highlight() + 1, 11);
    assert_eq!(*display.format_data[0].line_numbers().start(), 1);
}

#[test]
fn multi_line_annotation_layout() {
    let source = "zero\none\ntwo\nthree\nfour";
    // `one\ntwo\nth` spans lines 2 to 4.
    let data = FormatData::new(source, 5..15, 9..12);
    match data {
        FormatData::MultiLine { lines, line_numbers, must_be_visible_line_numbers, first_line_highlight, last_line_highlight } => {
            assert_eq!(lines, "one\ntwo\nthree");
            assert_eq!(line_numbers, (2, 4));
            assert_eq!(must_be_visible_line_numbers, (3, 3));
            assert_eq!(first_line_highlight, 0);
            assert_eq!(last_line_highlight, 1);
        }
        other => panic!("unexpected {:?}", other),
    }
}

#[test]
fn gutter_is_as_wide_as_the_largest_line_number() {
    assert_eq!(Gutter::new(0).number_width(), 1);
    assert_eq!(Gutter::new(9).number_width(), 1);
    assert_eq!(Gutter::new(10).number_width(), 2);
    assert_eq!(Gutter::new(12345).number_width(), 5);
    assert_eq!(Gutter::new(usize::MAX).number_width(), usize::MAX.to_string().len());
}

#[test]
fn lines_are_found_by_byte_index() {
    let text = "ab\ncd\n\nef";
    assert_eq!(get_line_containing(0, text), (1, 0));
    assert_eq!(get_line_containing(2, text), (1, 0));
    assert_eq!(get_line_containing(3, text), (2, 3));
    assert_eq!(get_line_containing(6, text), (3, 6));
    assert_eq!(get_line_containing(9, text), (4, 7));
}

#[test]
fn underline_characters() {
    assert_eq!(Mode::Error.underline(), '^');
    assert_eq!(Mode::Warning.underline(), '^');
    assert_eq!(Mode::Info.underline(), '-');
}

#[test]
fn line_printer_numbers_lines_and_tracks_depth() {
    let mut printer = LinePrinter::new(Mode::Error, Gutter::new(20), 7, 1);
    let first = printer.line("a");
    assert_eq!(first.line_number, 7);
    let skip = printer.skip_lines(3);
    assert_eq!(skip.bars.current_depth, 0);
    let open = printer.open(2..2);
    assert_eq!(open.bars.current_depth, 0);
    let next = printer.line("b");
    assert_eq!(next.line_number, 11);
    assert_eq!(next.bars.current_depth, 1);
    let close = printer.close(0..0);
    assert_eq!(close.bars.current_depth, 1);
    let annotate = printer.annotate(1..4);
    assert_eq!(annotate.bars.current_depth, 0);
    assert_eq!(annotate.highlight, 1..4);
}

#[test]
fn long_line_window_is_centered_on_the_highlight() {
    let line = "x".repeat(300);
    let display = SingleLineFormatDisplay {
        mode: Mode::Error,
        gutter: Gutter::new(1),
        line: &line,
        line_number: 1,
        line_highlight: 150..152,
    };
    assert!(display.is_long());
    let window = display.window();
    assert_eq!(window.display_start, 91);
    assert_eq!(window.display_end, 211);
    assert!(window.is_start_elided);
    assert!(window.is_end_elided);
    assert_eq!(window.elided_start, 95);
    assert_eq!(window.elided_end, 207);
    assert_eq!(window.underline_start, 59);
    assert_eq!(window.underline_end, 61);
}

#[test]
fn long_line_window_at_the_start() {
    let line = "y".repeat(130);
    let display = SingleLineFormatDisplay {
        mode: Mode::Error,
        gutter: Gutter::new(1),
        line: &line,
        line_number: 1,
        line_highlight: 0..3,
    };
    let window = display.window();
    assert_eq!(window.display_start, 0);
    assert_eq!(window.display_end, 120);
    assert!(!window.is_start_elided);
    assert!(window.is_end_elided);
    assert_eq!(window.elided_end, 116);
}

#[test]
fn multi_line_ranges_merge_when_close() {
    let display = MultiLineFormatDisplay {
        mode: Mode::Error,
        gutter: Gutter::new(30),
        lines: "",
        line_numbers: (1, 30),
        must_be_visible_line_numbers: (10, 12),
        first_line_highlight: 0,
        last_line_highlight: 0,
    };
    let ranges = display.ranges();
    assert_eq!(ranges.first, (2, 2));
    assert_eq!(ranges.second, Some((10, 12)));
    assert_eq!(ranges.third, Some((29, 30)));

    let close = MultiLineFormatDisplay { line_numbers: (1, 6), must_be_visible_line_numbers: (2, 3), ..display };
    let ranges = close.ranges();
    assert_eq!(ranges.first, (2, 6));
    assert_eq!(ranges.second, None);
    assert_eq!(ranges.third, None);
}

#[test]
fn error_display_layout() {
    let source = "one\ntwo three\nfour";
    let d = display_error(8..13, source);
    assert_eq!(d.lines_text, "two three");
    assert_eq!(d.line_start, 4);
    assert_eq!(d.first_line_number, 2);
    assert_eq!(d.last_line_number, 2);
    assert_eq!(d.gutter.number_width(), 1);

    let d = display_error(5..16, source);
    assert_eq!(d.lines_text, "two three\nfour");
    assert_eq!(d.first_line_number, 2);
    assert_eq!(d.last_line_number, 3);
    assert_eq!(d.last_line_start, 14);
}
