use ssh_serial_bridge::color::{ansi_color, color256_to_rgb565, Rgb565};
use ssh_serial_bridge::terminal::{AnsiTerminal, Cell, TERM_COLS, TERM_ROWS};

fn term(data: &[u8]) -> AnsiTerminal {
    let mut t = AnsiTerminal::new();
    t.feed(data);
    t
}

fn row(t: &AnsiTerminal, r: usize) -> String {
    (0..TERM_COLS).map(|c| t.cell(r, c).ch).collect::<String>().trim_end().to_string()
}

#[test]
fn fresh_terminal_is_blank_and_dirty() {
    let mut t = AnsiTerminal::new();
    assert_eq!(t.cell(17, 52), Cell::blank());
    assert_eq!(t.cursor(), (0, 0));
    assert!(t.take_dirty());
    assert!(!t.take_dirty());
}

#[test]
fn text_goes_to_the_cursor() {
    let t = term(b"ab\r\ncd");
    assert_eq!(row(&t, 0), "ab");
    assert_eq!(row(&t, 1), "cd");
    assert_eq!(t.cursor(), (1, 2));
}

#[test]
fn line_feed_keeps_the_column() {
    let t = term(b"ab\nc");
    assert_eq!(t.cursor(), (1, 3));
    assert_eq!(row(&t, 1), "  c");
}

#[test]
fn full_row_wraps_with_the_next_character() {
    let mut t = term(&[b'x'; 53]);
    assert_eq!(t.cursor(), (0, 53));
    t.feed(b"y");
    assert_eq!(t.cursor(), (1, 1));
    assert_eq!(row(&t, 1), "y");
}

#[test]
fn last_row_scrolls() {
    let mut t = AnsiTerminal::new();
    for i in 0..18 {
        t.feed(format!("{}\r\n", i).as_bytes());
    }
    assert_eq!(row(&t, 0), "1");
    assert_eq!(row(&t, 16), "17");
    assert_eq!(row(&t, 17), "");
    assert_eq!(t.cursor(), (17, 0));
}

#[test]
fn tabs_and_backspace() {
    let t = term(b"a\tb\x08\x08c");
    assert_eq!(row(&t, 0), "a      cb");
    assert_eq!(t.cursor(), (0, 8));
    let t = term(b"\x1b[1;53Hx\ty");
    assert_eq!(t.cursor(), (1, 1));
    let t = term(b"\x1b[1;50H\t");
    assert_eq!(t.cursor(), (0, 53));
}

#[test]
fn other_control_bytes_are_ignored() {
    let t = term(b"a\x00\x07\x1fb");
    assert_eq!(row(&t, 0), "ab");
}

#[test]
fn high_bytes_are_characters() {
    let t = term(&[0xe9]);
    assert_eq!(t.cell(0, 0).ch, '\u{e9}');
}

#[test]
fn cursor_moves() {
    assert_eq!(term(b"\x1b[5;10H").cursor(), (4, 9));
    assert_eq!(term(b"\x1b[5;10f\x1b[2A\x1b[3B\x1b[4C\x1b[1D").cursor(), (5, 12));
    assert_eq!(term(b"\x1b[99;99H").cursor(), (17, 52));
    assert_eq!(term(b"\x1b[H\x1b[A\x1b[D").cursor(), (0, 0));
    assert_eq!(term(b"\x1b[7G\x1b[3d").cursor(), (2, 6));
    assert_eq!(term(b"\x1b[99999B").cursor(), (1, 0));
    assert_eq!(term(b"\x1b[;5H").cursor(), (0, 4));
}

#[test]
fn erasing() {
    let mut t = term(b"abc\r\ndef\r\nghi\x1b[2;2H");
    t.feed(b"\x1b[K");
    assert_eq!(row(&t, 1), "d");
    t.feed(b"\x1b[1J");
    assert_eq!(row(&t, 0), "");
    assert_eq!(row(&t, 1), "");
    assert_eq!(row(&t, 2), "ghi");
    t.feed(b"\x1b[J");
    assert_eq!(row(&t, 2), "");
    let mut t = term(b"abc\x1b[1;2H\x1b[1K");
    assert_eq!(row(&t, 0), "  c");
    t.feed(b"\x1b[2K");
    assert_eq!(row(&t, 0), "");
    let t = term(b"abc\r\nd\x1b[2J");
    assert_eq!(row(&t, 0), "");
    assert_eq!(t.cursor(), (1, 1));
    let t = term(b"abcdef\x1b[1;2H\x1b[3X");
    assert_eq!(row(&t, 0), "a   ef");
}

#[test]
fn inserting_and_deleting() {
    assert_eq!(row(&term(b"abcdef\x1b[1;2H\x1b[2P"), 0), "adef");
    assert_eq!(row(&term(b"abcdef\x1b[1;2H\x1b[2@"), 0), "a  bcdef");
    let t = term(b"a\r\nb\r\nc\x1b[2;1H\x1b[L");
    assert_eq!(row(&t, 1), "");
    assert_eq!(row(&t, 2), "b");
    let t = term(b"a\r\nb\r\nc\x1b[1;1H\x1b[2M");
    assert_eq!(row(&t, 0), "c");
    let t = term(b"a\r\nb\x1b[S");
    assert_eq!(row(&t, 0), "b");
    let t = term(b"a\r\nb\x1b[2T");
    assert_eq!(row(&t, 2), "a");
    let t = term(b"a\x1b[999S");
    assert_eq!(row(&t, 0), "");
}

#[test]
fn reverse_index_scrolls_down() {
    let t = term(b"a\x1bM");
    assert_eq!(row(&t, 0), "");
    assert_eq!(row(&t, 1), "a");
    let t = term(b"a\r\nb\x1bM");
    assert_eq!(t.cursor(), (0, 1));
}

#[test]
fn colours() {
    let t = term(b"\x1b[31;44mx\x1b[0my\x1b[1;32mz\x1b[22;7mw");
    assert_eq!(t.cell(0, 0).fg, ansi_color(1));
    assert_eq!(t.cell(0, 0).bg, ansi_color(4));
    assert_eq!(t.cell(0, 1), Cell { ch: 'y', fg: ansi_color(7), bg: ansi_color(0) });
    assert_eq!(t.cell(0, 2).fg, ansi_color(10));
    assert_eq!(t.cell(0, 3).fg, ansi_color(0));
    assert_eq!(t.cell(0, 3).bg, ansi_color(10));
    let t = term(b"\x1b[38;5;196;48;5;21mx\x1b[39;49my\x1b[95;103mz\x1b[mq");
    assert_eq!(t.cell(0, 0).fg, color256_to_rgb565(196));
    assert_eq!(t.cell(0, 0).bg, color256_to_rgb565(21));
    assert_eq!(t.cell(0, 1).fg, ansi_color(7));
    assert_eq!(t.cell(0, 2).fg, ansi_color(13));
    assert_eq!(t.cell(0, 2).bg, ansi_color(11));
    assert_eq!(t.cell(0, 3).fg, ansi_color(7));
    let t = term(b"\x1b[38;5mx");
    assert_eq!(t.cell(0, 0).fg, ansi_color(7));
}

#[test]
fn palette_values() {
    assert_eq!(ansi_color(3), Rgb565 { r: 21, g: 42, b: 0 });
    assert_eq!(color256_to_rgb565(9), Rgb565 { r: 31, g: 0, b: 0 });
    assert_eq!(color256_to_rgb565(196), Rgb565 { r: 31, g: 0, b: 0 });
    assert_eq!(color256_to_rgb565(16), Rgb565 { r: 0, g: 0, b: 0 });
    assert_eq!(color256_to_rgb565(67), Rgb565 { r: 6, g: 25, b: 19 });
    assert_eq!(color256_to_rgb565(232), Rgb565 { r: 1, g: 2, b: 1 });
    assert_eq!(color256_to_rgb565(255), Rgb565 { r: 29, g: 59, b: 29 });
    // Past the palette the channels keep their low bits.
    assert_eq!(color256_to_rgb565(300), Rgb565 { r: 20, g: 42, b: 20 });
    assert_eq!(color256_to_rgb565(65535), Rgb565 { r: 8, g: 5, b: 8 });
}

#[test]
fn save_and_restore_cursor() {
    assert_eq!(term(b"\x1b[3;4H\x1b7\x1b[9;9H\x1b8").cursor(), (2, 3));
    assert_eq!(term(b"\x1b[3;4H\x1b[s\x1b[9;9H\x1b[u").cursor(), (2, 3));
}

#[test]
fn full_reset() {
    let t = term(b"\x1b[31mabc\x1bcx");
    assert_eq!(row(&t, 0), "x");
    assert_eq!(t.cell(0, 0).fg, ansi_color(7));
}

#[test]
fn other_sequences_are_skipped() {
    assert_eq!(row(&term(b"\x1b]0;12\x07a"), 0), "a");
    assert_eq!(row(&term(b"\x1b]0;user@host: ~/dir[1]\x07a"), 0), "a");
    assert_eq!(row(&term(b"\x1b]2;C:\\dir\x1b[1m\x1b\\b"), 0), "b");
    assert_eq!(row(&term(b"\x1b(Ba"), 0), "a");
    assert_eq!(row(&term(b"\x1b[?25l\x1b[?7hb"), 0), "b");
    assert_eq!(row(&term(b"\x1bZc"), 0), "c");
}

#[test]
fn window_title_is_not_shown() {
    let t = term(b"\x1b]0;ab\x07C");
    assert_eq!(t.cell(0, 0).ch, 'C');
    assert_eq!(t.cell(0, 1).ch, ' ');
    assert_eq!(t.cursor(), (0, 1));
    // An ESC inside the title does not end it, and BEL behind one does.
    assert_eq!(row(&term(b"\x1b]0;a\x1bb\x1b\x1b\\c"), 0), "c");
    assert_eq!(row(&term(b"\x1b]0;a\x1b\x07d"), 0), "d");
}

#[test]
fn saved_place_comes_back() {
    for save in ["\x1b7", "\x1b[s"] {
        for restore in ["\x1b8", "\x1b[u"] {
            let t = term(format!("\x1b[3;5H{save}\x1b[9;9Hxy\r\n\x1b]7s\x07{restore}").as_bytes());
            assert_eq!(t.cursor(), (2, 4));
        }
    }
}

#[test]
fn data_in_pieces_is_data_at_once() {
    let data = b"ab\x1b[31;1mc\r\n\x1b[2;5Hxyz\x1b]0;t\x07\tq";
    let whole = term(data);
    for cut in 0..data.len() {
        let mut t = AnsiTerminal::new();
        t.feed(&data[..cut]);
        t.feed(&data[cut..]);
        assert_eq!(t.cursor(), whole.cursor());
        for r in 0..TERM_ROWS {
            for c in 0..TERM_COLS {
                assert_eq!(t.cell(r, c), whole.cell(r, c));
            }
        }
    }
}

#[test]
fn whatever_comes_the_cursor_stays_on_the_grid() {
    let mut t = AnsiTerminal::new();
    let mut x: u32 = 12345;
    for _ in 0..20000 {
        x = x.wrapping_mul(1664525).wrapping_add(1013904223);
        let b = match (x >> 24) % 4 {
            0 => 0x1b,
            1 => b'[',
            2 => b'0' + ((x >> 16) % 12) as u8,
            _ => (x >> 16) as u8,
        };
        t.feed(&[b]);
        let (r, c) = t.cursor();
        assert!(r < TERM_ROWS && c <= TERM_COLS);
    }
}

#[test]
fn a_change_marks_the_terminal() {
    let mut t = AnsiTerminal::new();
    t.take_dirty();
    t.feed(b"\x1b[31m");
    assert!(!t.take_dirty());
    t.feed(b"x");
    assert!(t.take_dirty());
    t.feed(b"\x1b[18;1H");
    t.take_dirty();
    t.feed(b"\x1bD");
    assert!(t.take_dirty());
}

#[test]
fn reverse_video_twice_is_none() {
    let t = term(b"\x1b[31;42;7;27mx");
    assert_eq!(t.cell(0, 0).fg, ansi_color(1));
    assert_eq!(t.cell(0, 0).bg, ansi_color(2));
}
