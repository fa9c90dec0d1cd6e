use caliban::layout::{centered_rect, centered_rect_abs, middle_sizes, Size};
use caliban::render::wrap::wrap_lines_to_width;
use caliban::render::transcript::{format_bytes, format_cache_suffix};
use caliban::render::{cursor_cell, input_lines, input_rows, main_sizes};
use caliban::style::{clone_lines, raw, styled, wrapped_height, Alignment, Color, Line, Style};
use caliban::types::Rect;

fn texts(lines: &[Line]) -> Vec<String> {
    lines.iter().map(|l| l.text()).collect()
}

#[test]
fn long_lines_wrap_at_the_column() {
    let red = Style::default().fg(Color::Red);
    let line = Line::of2(raw("abcd"), styled("efghij", red));
    let rows = wrap_lines_to_width(vec![line, Line::blank(), Line::raw("xyz")], 3);
    assert_eq!(texts(&rows), vec!["abc", "def", "ghi", "j", "", "xyz"]);
    // Each piece keeps its style.
    assert_eq!(rows[1].spans.len(), 2);
    assert_eq!(rows[1].spans[0].style, Style::default());
    assert_eq!(rows[1].spans[1].style, red);
}

#[test]
fn a_column_without_room_leaves_lines_alone() {
    let rows = wrap_lines_to_width(vec![Line::raw("abcdef")], 0);
    assert_eq!(texts(&rows), vec!["abcdef"]);
}

#[test]
fn lines_that_just_fit_take_one_row() {
    let rows = wrap_lines_to_width(vec![Line::raw("abc")], 3);
    assert_eq!(texts(&rows), vec!["abc"]);
    assert_eq!(wrapped_height(&vec![Line::raw("abc"), Line::blank()], 3), 2);
    assert_eq!(wrapped_height(&vec![Line::raw("abcd")], 3), 2);
    assert_eq!(wrapped_height(&vec![Line::raw("abcd")], 0), 1);
}

#[test]
fn the_prompt_grows_with_its_text() {
    assert_eq!(input_rows("", 10), 1);
    assert_eq!(input_rows("12345678", 10), 1);
    assert_eq!(input_rows("123456789", 10), 2);
    assert_eq!(input_rows("a\n\nb", 10), 3);
    assert_eq!(input_rows(&"x".repeat(500), 10), 10);
    assert_eq!(input_rows("anything", 0), 1);
}

#[test]
fn the_prompt_shows_its_mark_once() {
    assert_eq!(texts(&input_lines("", 10)), vec!["> "]);
    assert_eq!(texts(&input_lines("ab\n\ncd", 10)), vec!["> ab", "", "cd"]);
    assert_eq!(texts(&input_lines("abcdef", 4)), vec!["> ab", "cdef"]);
    assert!(input_lines("abc", 0).is_empty());
}

#[test]
fn the_cursor_follows_the_text() {
    assert_eq!(cursor_cell("", 10, 1), (2, 0));
    assert_eq!(cursor_cell("abc", 10, 1), (5, 0));
    assert_eq!(cursor_cell("abc\nde", 10, 2), (2, 1));
    assert_eq!(cursor_cell("12345678", 10, 2), (0, 1));
    assert_eq!(cursor_cell(&"x".repeat(500), 10, 10), (2, 9));
    assert_eq!(cursor_cell("abc", 1, 10), (0, 5));
}

#[test]
fn popups_stand_in_the_middle() {
    let screen = Rect { x: 0, y: 0, width: 100, height: 40 };
    assert_eq!(
        centered_rect_abs(50, 10, screen),
        Rect { x: 25, y: 15, width: 50, height: 10 }
    );
    assert_eq!(centered_rect_abs(500, 500, screen), screen);
    assert_eq!(
        middle_sizes(80),
        vec![Size::Percentage(10), Size::Percentage(80), Size::Percentage(10)]
    );
    let part = centered_rect(80, 80, screen);
    assert_eq!(part, Rect { x: 10, y: 4, width: 80, height: 32 });
}

#[test]
fn the_screen_is_split_in_six() {
    assert_eq!(
        main_sizes(1, 3),
        vec![
            Size::Min(0),
            Size::Length(1),
            Size::Length(1),
            Size::Length(3),
            Size::Length(1),
            Size::Length(1),
        ]
    );
}

#[test]
fn sizes_round_as_floating_point_figures_do() {
    for n in [
        1024u64,
        1075,
        1076,
        1177,
        1331,
        1536,
        1126,
        1280,
        1792,
        99_999,
        1_048_575,
    ] {
        assert_eq!(format_bytes(n), format!("{:.1} KB", n as f64 / 1024.0));
    }
    for n in [
        1_048_576u64,
        1_101_004,
        1_101_005,
        1_310_720,
        1_835_008,
        123_456_789,
        9_007_199_254_740_993,
        9_223_372_036_854_775_807,
        u64::MAX,
    ] {
        assert_eq!(format_bytes(n), format!("{:.1} MB", n as f64 / (1024.0 * 1024.0)));
    }
}

#[test]
fn cache_figures_show_when_there_are_any() {
    assert_eq!(format_cache_suffix(None, None), "");
    assert_eq!(format_cache_suffix(Some(0), Some(0)), "");
    assert_eq!(format_cache_suffix(Some(42), None), " (42 cached)");
    assert_eq!(format_cache_suffix(None, Some(100)), " (100 cache write)");
    assert_eq!(format_cache_suffix(Some(42), Some(100)), " (42 cached, 100 write)");
}

#[test]
fn rows_keep_the_alignment_of_their_line() {
    let mut centred = Line::raw("abcdefg");
    centred.alignment = Some(Alignment::Center);
    let copied = clone_lines(&vec![centred, Line::raw("xyzw")]);
    let rows = wrap_lines_to_width(copied, 3);
    let sides: Vec<Option<Alignment>> = rows.iter().map(|r| r.alignment).collect();
    let center = Some(Alignment::Center);
    assert_eq!(sides, vec![center, center, center, None, None]);
}
