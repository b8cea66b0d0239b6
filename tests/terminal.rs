use clay::cell::{Cell, CellFlags, Color, Style};
use clay::grid::Grid;
use clay::terminal::{Line, VirtualTerminal, SCROLLBACK_BUFFER_SIZE};

fn row_text(vt: &VirtualTerminal, r: usize) -> String {
    vt.state().grid().row(r).unwrap().iter().map(|c| c.c).collect()
}

fn cell(vt: &VirtualTerminal, r: usize, c: usize) -> Cell {
    vt.state().grid().row(r).unwrap()[c]
}

fn line_text(l: &Line) -> String {
    l.spans.iter().map(|s| s.content.clone()).collect()
}

fn padded(s: &str, w: usize) -> String {
    format!("{:<w$}", s, w = w)
}

#[test]
fn hello_world_on_two_rows() {
    let mut vt = VirtualTerminal::new(24, 80);
    vt.process_bytes(b"Hello");
    vt.process_bytes(b"\r\n");
    vt.process_bytes(b"World");
    assert_eq!(row_text(&vt, 0), padded("Hello", 80));
    assert_eq!(row_text(&vt, 1), padded("World", 80));
    for c in 5..80 {
        assert_eq!(cell(&vt, 0, c), Cell::default());
        assert_eq!(cell(&vt, 1, c), Cell::default());
    }
    assert_eq!(vt.state().cursor(), (1, 5));
}

#[test]
fn erase_display_resets_cells_keeps_cursor_and_bottom() {
    let mut vt = VirtualTerminal::new(24, 80);
    vt.process_bytes(b"one\r\ntwo\r\nthree");
    let cursor = vt.state().cursor();
    let bottom = vt.state().content_bottom_row();
    assert_eq!(bottom, 2);
    vt.process_bytes(b"\x1b[2J");
    for r in 0..SCROLLBACK_BUFFER_SIZE {
        for c in 0..80 {
            assert_eq!(cell(&vt, r, c), Cell::default());
        }
    }
    assert_eq!(vt.state().cursor(), cursor);
    assert_eq!(vt.state().content_bottom_row(), bottom);
}

#[test]
fn empty_input_changes_nothing() {
    let mut vt = VirtualTerminal::new(5, 10);
    vt.process_bytes(b"ab\r\ncd\x1b[1m");
    let before: Vec<String> = (0..3).map(|r| row_text(&vt, r)).collect();
    let cursor = vt.state().cursor();
    vt.process_bytes(b"");
    let after: Vec<String> = (0..3).map(|r| row_text(&vt, r)).collect();
    assert_eq!(before, after);
    assert_eq!(vt.state().cursor(), cursor);
    assert_eq!(vt.scroll_offset(), 0);
    assert_eq!(vt.state().content_bottom_row(), 1);
}

#[test]
fn empty_input_keeps_a_scrolled_view() {
    let mut vt = VirtualTerminal::new(2, 10);
    vt.process_bytes(b"a\r\nb\r\nc\r\nd");
    vt.scroll_up(1);
    assert_eq!(vt.scroll_offset(), 1);
    vt.process_bytes(b"");
    assert_eq!(vt.scroll_offset(), 1);
    assert_eq!(vt.get_cursor_position(), None);
    vt.process_bytes(b"\x1b[");
    vt.process_bytes(b"");
    vt.process_bytes(b"1mX");
    assert_eq!(vt.scroll_offset(), 0);
    assert_eq!(cell(&vt, 3, 1), Cell { c: 'X', flags: CellFlags { bold: true, ..CellFlags::empty() }, ..Cell::default() });
}

#[test]
fn print_into_bottom_right_scrolls_at_once() {
    let mut vt = VirtualTerminal::new(3, 2);
    vt.process_bytes(format!("\x1b[{};1H", SCROLLBACK_BUFFER_SIZE).as_bytes());
    vt.process_bytes(b"xy");
    let last = SCROLLBACK_BUFFER_SIZE - 1;
    assert_eq!(vt.state().cursor(), (last, 0));
    assert_eq!(row_text(&vt, last - 1), "xy");
    assert_eq!(row_text(&vt, last), "  ");
    assert_eq!(vt.state().content_bottom_row(), last);
}

#[test]
fn huge_relative_moves_stay_in_grid() {
    let mut vt = VirtualTerminal::new(10, 20);
    vt.process_bytes(b"\x1b[65535B");
    assert_eq!(vt.state().cursor(), (SCROLLBACK_BUFFER_SIZE - 1, 0));
    vt.process_bytes(b"\x1b[65535C");
    assert_eq!(vt.state().cursor(), (SCROLLBACK_BUFFER_SIZE - 1, 19));
    vt.process_bytes(b"\x1b[65535A");
    assert_eq!(vt.state().cursor(), (0, 19));
    vt.process_bytes(b"\x1b[65535D");
    assert_eq!(vt.state().cursor(), (0, 0));
    vt.process_bytes(b"\x1b[99999999999C");
    let (r, c) = vt.state().cursor();
    assert!(r < SCROLLBACK_BUFFER_SIZE && c < 20);
}

#[test]
fn relative_move_without_count_moves_one() {
    let mut vt = VirtualTerminal::new(10, 20);
    vt.process_bytes(b"\x1b[5;5H");
    assert_eq!(vt.state().cursor(), (4, 4));
    vt.process_bytes(b"\x1b[A");
    assert_eq!(vt.state().cursor(), (3, 4));
    vt.process_bytes(b"\x1b[0B");
    assert_eq!(vt.state().cursor(), (4, 4));
    vt.process_bytes(b"\x1b[C\x1b[2D");
    assert_eq!(vt.state().cursor(), (4, 3));
}

#[test]
fn bold_off_clears_only_bold() {
    let mut vt = VirtualTerminal::new(5, 10);
    vt.process_bytes(b"\x1b[3;4;7;31;42m\x1b[1m\x1b[22mX");
    let x = cell(&vt, 0, 0);
    assert_eq!(x.c, 'X');
    assert_eq!(x.fg, Color::Red);
    assert_eq!(x.bg, Color::Green);
    assert_eq!(
        x.flags,
        CellFlags { bold: false, italic: true, underline: true, inverse: true }
    );
}

#[test]
fn attributes_set_and_clear_independently() {
    let mut vt = VirtualTerminal::new(5, 10);
    vt.process_bytes(b"\x1b[1;3;4;7mA\x1b[23mB\x1b[24;27mC\x1b[0mD\x1b[95;47mE\x1b[1mF\x1b[99mG");
    assert_eq!(cell(&vt, 0, 0).flags, CellFlags { bold: true, italic: true, underline: true, inverse: true });
    assert_eq!(cell(&vt, 0, 1).flags, CellFlags { bold: true, italic: false, underline: true, inverse: true });
    assert_eq!(cell(&vt, 0, 2).flags, CellFlags { bold: true, italic: false, underline: false, inverse: false });
    assert_eq!(cell(&vt, 0, 3), Cell { c: 'D', ..Cell::default() });
    let e = cell(&vt, 0, 4);
    assert_eq!((e.fg, e.bg), (Color::LightMagenta, Color::White));
    assert_eq!(e.flags, CellFlags::empty());
    let f = cell(&vt, 0, 5);
    assert_eq!((f.fg, f.bg, f.flags.bold), (Color::LightMagenta, Color::White, true));
    assert_eq!(cell(&vt, 0, 6).style(), f.style());
}

#[test]
fn base_and_bright_colors() {
    let mut vt = VirtualTerminal::new(5, 20);
    vt.process_bytes(b"\x1b[30ma\x1b[37mb\x1b[90mc\x1b[97md\x1b[40me\x1b[46mf");
    assert_eq!(cell(&vt, 0, 0).fg, Color::Black);
    assert_eq!(cell(&vt, 0, 1).fg, Color::White);
    assert_eq!(cell(&vt, 0, 2).fg, Color::DarkGray);
    assert_eq!(cell(&vt, 0, 3).fg, Color::White);
    assert_eq!(cell(&vt, 0, 4).bg, Color::Black);
    assert_eq!(cell(&vt, 0, 5).bg, Color::Cyan);
}

#[test]
fn grid_scroll_drops_top_rows_and_blanks_bottom() {
    let mut g = Grid::new(4, 3);
    for r in 0..4 {
        for c in 0..3 {
            g.set_cell(r, c, Cell { c: (b'a' + r as u8) as char, ..Cell::default() });
        }
    }
    g.scroll_up(2);
    let text = |g: &Grid, r: usize| -> String { g.row(r).unwrap().iter().map(|c| c.c).collect() };
    assert_eq!(text(&g, 0), "ccc");
    assert_eq!(text(&g, 1), "ddd");
    assert_eq!(text(&g, 2), "   ");
    assert_eq!(text(&g, 3), "   ");
    g.scroll_up(1);
    assert_eq!(text(&g, 0), "ddd");
    assert_eq!(text(&g, 1), "   ");
    g.scroll_up(100);
    for r in 0..4 {
        assert_eq!(text(&g, r), "   ");
    }
    assert!(g.row(4).is_none());
    assert_eq!((g.height(), g.width()), (4, 3));
}

#[test]
fn output_past_the_last_row_scrolls_the_grid() {
    let mut vt = VirtualTerminal::new(5, 10);
    for i in 0..SCROLLBACK_BUFFER_SIZE + 3 {
        vt.process_bytes(format!("{}\r\n", i).as_bytes());
    }
    let last = SCROLLBACK_BUFFER_SIZE - 1;
    assert_eq!(vt.state().cursor(), (last, 0));
    assert_eq!(vt.state().content_bottom_row(), last);
    assert_eq!(row_text(&vt, 0), padded("4", 10));
    assert_eq!(row_text(&vt, last - 1), padded(&format!("{}", SCROLLBACK_BUFFER_SIZE + 2), 10));
    assert_eq!(row_text(&vt, last), padded("", 10));
}

#[test]
fn print_wraps_at_the_width() {
    let mut vt = VirtualTerminal::new(5, 4);
    vt.process_bytes(b"abcd");
    assert_eq!(vt.state().cursor(), (1, 0));
    assert_eq!(vt.state().content_bottom_row(), 1);
    vt.process_bytes(b"e");
    assert_eq!(vt.state().cursor(), (1, 1));
    assert_eq!(row_text(&vt, 0), "abcd");
    assert_eq!(row_text(&vt, 1), "e   ");
}

#[test]
fn printed_text_is_laid_out_row_major() {
    let mut vt = VirtualTerminal::new(3, 10);
    let text = "abcdefghijklmnopqrstuvwxy";
    vt.process_bytes(text.as_bytes());
    let lines = vt.get_visible_lines();
    assert_eq!(lines.len(), 3);
    assert_eq!(line_text(&lines[0]), "abcdefghij");
    assert_eq!(line_text(&lines[1]), "klmnopqrst");
    assert_eq!(line_text(&lines[2]), "uvwxy     ");
    for l in &lines {
        assert_eq!(l.spans.len(), 1);
        assert_eq!(l.spans[0].style, Style::default());
    }
}

#[test]
fn visible_lines_merge_runs_of_one_style() {
    let mut vt = VirtualTerminal::new(1, 7);
    vt.process_bytes(b"ab\x1b[31mcd\x1b[0mef");
    let lines = vt.get_visible_lines();
    assert_eq!(lines.len(), 1);
    let spans: Vec<(String, Color)> = lines[0].spans.iter().map(|s| (s.content.clone(), s.style.fg)).collect();
    assert_eq!(
        spans,
        vec![("ab".to_string(), Color::Reset), ("cd".to_string(), Color::Red), ("ef ".to_string(), Color::Reset)]
    );
}

#[test]
fn tab_moves_to_next_stop_with_spaces() {
    let mut vt = VirtualTerminal::new(5, 20);
    vt.process_bytes(b"ab\tc");
    assert_eq!(row_text(&vt, 0), padded("ab      c", 20));
    assert_eq!(vt.state().cursor(), (0, 9));
    vt.process_bytes(b"\r\t");
    assert_eq!(vt.state().cursor(), (0, 8));
}

#[test]
fn backspace_moves_left_without_erasing() {
    let mut vt = VirtualTerminal::new(5, 10);
    vt.process_bytes(b"ab\x08");
    assert_eq!(vt.state().cursor(), (0, 1));
    assert_eq!(row_text(&vt, 0), padded("ab", 10));
    vt.process_bytes(b"\x08\x08\x08");
    assert_eq!(vt.state().cursor(), (0, 0));
    vt.process_bytes(b"X");
    assert_eq!(row_text(&vt, 0), padded("Xb", 10));
}

#[test]
fn sequence_split_across_chunks_is_recognised() {
    let mut vt = VirtualTerminal::new(5, 10);
    vt.process_bytes(b"\x1b[");
    vt.process_bytes(b"3");
    vt.process_bytes(b";4H");
    vt.process_bytes(b"Z");
    assert_eq!(cell(&vt, 2, 3).c, 'Z');
    vt.process_bytes(&[0xc3]);
    vt.process_bytes(&[0xa9]);
    assert_eq!(cell(&vt, 2, 4).c, '\u{e9}');
}

#[test]
fn osc_and_escape_sequences_leave_no_trace() {
    let mut vt = VirtualTerminal::new(5, 10);
    vt.process_bytes(b"\x1b]0;title\x07a\x1bPq#0\x1b\\b\x1b(Bc");
    assert_eq!(row_text(&vt, 0), padded("abc", 10));
}

#[test]
fn erase_line_modes() {
    let mut vt = VirtualTerminal::new(5, 6);
    vt.process_bytes(b"abcdef\x1b[1;3H\x1b[K");
    assert_eq!(row_text(&vt, 0), "ab    ");
    vt.process_bytes(b"\x1b[2;1Hghijkl\x1b[2;3H\x1b[1K");
    assert_eq!(row_text(&vt, 1), "   jkl");
    vt.process_bytes(b"\x1b[2K");
    assert_eq!(row_text(&vt, 1), "      ");
    assert_eq!(vt.state().cursor(), (1, 2));
}

#[test]
fn erase_display_before_and_after_cursor() {
    let mut vt = VirtualTerminal::new(5, 4);
    vt.process_bytes(b"abc\r\ndef\r\nghi\x1b[2;2H\x1b[J");
    assert_eq!(row_text(&vt, 0), "abc ");
    assert_eq!(row_text(&vt, 1), "d   ");
    assert_eq!(row_text(&vt, 2), "    ");
    vt.process_bytes(b"\x1b[1;1Habc\r\ndef\r\nghi\x1b[2;2H\x1b[1J");
    assert_eq!(row_text(&vt, 0), "    ");
    assert_eq!(row_text(&vt, 1), "  f ");
    assert_eq!(row_text(&vt, 2), "ghi ");
}

#[test]
fn save_and_restore_cursor() {
    let mut vt = VirtualTerminal::new(5, 10);
    vt.process_bytes(b"\x1b[3;4H\x1b[s\x1b[1;1H\x1b[31m");
    assert_eq!(vt.state().cursor(), (0, 0));
    vt.process_bytes(b"\x1b[u");
    assert_eq!(vt.state().cursor(), (2, 3));
    assert_eq!(vt.state().current_style().fg, Color::Red);
}

#[test]
fn absolute_position_is_clamped() {
    let mut vt = VirtualTerminal::new(5, 10);
    vt.process_bytes(b"\x1b[9999;9999H");
    assert_eq!(vt.state().cursor(), (SCROLLBACK_BUFFER_SIZE - 1, 9));
    vt.process_bytes(b"\x1b[H");
    assert_eq!(vt.state().cursor(), (0, 0));
}

#[test]
fn scrolling_the_viewport_is_clamped() {
    let mut vt = VirtualTerminal::new(3, 10);
    for i in 0..10 {
        vt.process_bytes(format!("line{}\r\n", i).as_bytes());
    }
    assert_eq!(vt.state().content_bottom_row(), 10);
    vt.scroll_up(100);
    assert_eq!(vt.scroll_offset(), 8);
    let lines = vt.get_visible_lines();
    assert_eq!(lines.len(), 3);
    assert_eq!(line_text(&lines[0]).trim_end(), "line0");
    assert_eq!(vt.get_cursor_position(), None);
    vt.scroll_down(5);
    assert_eq!(vt.scroll_offset(), 3);
    vt.scroll_down(100);
    assert_eq!(vt.scroll_offset(), 0);
    assert_eq!(vt.get_cursor_position(), Some((0, 2)));
    vt.scroll_up(2);
    vt.process_bytes(b"x");
    assert_eq!(vt.scroll_offset(), 0);
}

#[test]
fn scrolling_beyond_content_drops_top_rows_from_view() {
    let mut vt = VirtualTerminal::new(2, 10);
    vt.process_bytes(b"top0\r\ntop1\r\nmid\r\nend");
    let visible: Vec<String> = vt.get_visible_lines().iter().map(line_text).collect();
    assert_eq!(visible.len(), 2);
    assert!(visible.iter().all(|l| !l.starts_with("top")));
    assert_eq!(visible[1].trim_end(), "end");
}

#[test]
fn clear_resets_grid_cursor_and_view() {
    let mut vt = VirtualTerminal::new(3, 10);
    vt.process_bytes(b"a\r\nb\r\nc\r\nd\x1b[32m");
    vt.scroll_up(1);
    vt.clear();
    assert_eq!(vt.state().cursor(), (0, 0));
    assert_eq!(vt.state().content_bottom_row(), 0);
    assert_eq!(vt.scroll_offset(), 0);
    assert_eq!(row_text(&vt, 3), padded("", 10));
    assert_eq!(vt.get_cursor_position(), Some((0, 0)));
    let lines = vt.get_visible_lines();
    assert_eq!(lines.len(), 1);
    vt.process_bytes(b"g");
    assert_eq!(cell(&vt, 0, 0).fg, Color::Green);
}

#[test]
fn new_terminal_shows_one_blank_line() {
    let vt = VirtualTerminal::new(0, 4);
    let lines = vt.get_visible_lines();
    assert_eq!(lines.len(), 1);
    assert_eq!(line_text(&lines[0]), "    ");
    assert_eq!(vt.get_cursor_position(), Some((0, 0)));
}
