//! An ANSI terminal emulator on a fixed grid of coloured character cells.

use crate::color::{self, ansi_color, color256_to_rgb565, Rgb565};
use crate::text;
use vstd::prelude::*;

verus! {

/// Columns of the grid: a 320-pixel line in a 6-pixel font.
pub const TERM_COLS: usize = 53;

/// Rows of the grid: 220 pixels below the header in a 12-pixel font.
pub const TERM_ROWS: usize = 18;

/// One character cell.
#[derive(Copy, Clone, Debug, PartialEq, Eq, Structural)]
pub struct Cell {
    pub ch: char,
    pub fg: Rgb565,
    pub bg: Rgb565,
}

/// How much of an escape sequence has been read.
#[derive(Copy, Clone, Debug, PartialEq, Eq, Structural)]
pub enum ParseState {
    /// Plain text.
    Normal,
    /// Behind an ESC.
    Esc,
    /// Behind `ESC [`, inside the parameters.
    Csi,
    /// Behind `ESC ]`, inside a string for the operating system, which is skipped.
    Osc,
    /// Behind an ESC inside such a string.
    OscEsc,
    /// Inside another sequence, which is skipped.
    Other,
}

/// What a terminal holds.
#[verifier::ext_equal]
pub struct Screen {
    pub cells: Seq<Seq<Cell>>,
    pub row: int,
    pub col: int,
    pub saved_row: int,
    pub saved_col: int,
    pub fg: Rgb565,
    pub bg: Rgb565,
    pub bold: bool,
    pub state: ParseState,
    pub params: Seq<u8>,
    pub dirty: bool,
}

/// A cell that nothing was written to.
pub open spec fn blank() -> Cell {
    Cell { ch: ' ', fg: color::default_fg(), bg: color::default_bg() }
}

/// A row of blank cells.
pub open spec fn blank_row() -> Seq<Cell> {
    Seq::new(TERM_COLS as nat, |c: int| blank())
}

/// A grid of blank cells.
pub open spec fn blank_grid() -> Seq<Seq<Cell>> {
    Seq::new(TERM_ROWS as nat, |r: int| blank_row())
}

/// Whether `b` may stand among the parameters of a control sequence.
pub open spec fn is_param(b: u8) -> bool {
    '0' <= b as char <= '9' || b as char == ';' || b as char == '?'
}

impl Screen {
    /// The grid has its size, both cursors stand on a row and at most one past its last column,
    /// and the parameters hold digits, semicolons and question marks only.
    pub open spec fn wf(self) -> bool {
        &&& self.cells.len() == TERM_ROWS
        &&& forall|r: int| 0 <= r < TERM_ROWS ==> (#[trigger] self.cells[r]).len() == TERM_COLS
        &&& 0 <= self.row < TERM_ROWS
        &&& 0 <= self.col <= TERM_COLS
        &&& 0 <= self.saved_row < TERM_ROWS
        &&& 0 <= self.saved_col <= TERM_COLS
        &&& forall|i: int| 0 <= i < self.params.len() ==> is_param(#[trigger] self.params[i])
    }
}

/// A terminal that has received nothing.
pub open spec fn fresh() -> Screen {
    Screen {
        cells: blank_grid(),
        row: 0,
        col: 0,
        saved_row: 0,
        saved_col: 0,
        fg: color::default_fg(),
        bg: color::default_bg(),
        bold: false,
        state: ParseState::Normal,
        params: Seq::empty(),
        dirty: true,
    }
}

/// The rows from `top` on move up by `n`; blank rows come in at the bottom.
pub open spec fn shift_up(g: Seq<Seq<Cell>>, top: int, n: int) -> Seq<Seq<Cell>> {
    Seq::new(
        TERM_ROWS as nat,
        |r: int|
            if r < top {
                g[r]
            } else if r + n < TERM_ROWS {
                g[r + n]
            } else {
                blank_row()
            },
    )
}

/// The rows from `top` on move down by `n`; blank rows come in at `top`.
pub open spec fn shift_down(g: Seq<Seq<Cell>>, top: int, n: int) -> Seq<Seq<Cell>> {
    Seq::new(
        TERM_ROWS as nat,
        |r: int|
            if r < top {
                g[r]
            } else if r - n >= top {
                g[r - n]
            } else {
                blank_row()
            },
    )
}

/// Columns `from..to` of row `row` become `cell`.
pub open spec fn fill(g: Seq<Seq<Cell>>, row: int, from: int, to: int, cell: Cell) -> Seq<
    Seq<Cell>,
> {
    g.update(
        row,
        Seq::new(
            TERM_COLS as nat,
            |c: int|
                if from <= c < to {
                    cell
                } else {
                    g[row][c]
                },
        ),
    )
}

/// Rows `from..to` become blank.
pub open spec fn blank_rows(g: Seq<Seq<Cell>>, from: int, to: int) -> Seq<Seq<Cell>> {
    Seq::new(
        TERM_ROWS as nat,
        |r: int|
            if from <= r < to {
                blank_row()
            } else {
                g[r]
            },
    )
}

/// `n` characters leave row `row` at `col`; the rest moves left and blanks follow.
pub open spec fn delete_chars(g: Seq<Seq<Cell>>, row: int, col: int, n: int) -> Seq<Seq<Cell>> {
    g.update(
        row,
        Seq::new(
            TERM_COLS as nat,
            |c: int|
                if c < col {
                    g[row][c]
                } else if c + n < TERM_COLS {
                    g[row][c + n]
                } else {
                    blank()
                },
        ),
    )
}

/// `n` blanks enter row `row` at `col`; what stood there moves right.
pub open spec fn insert_chars(g: Seq<Seq<Cell>>, row: int, col: int, n: int) -> Seq<Seq<Cell>> {
    g.update(
        row,
        Seq::new(
            TERM_COLS as nat,
            |c: int|
                if c < col {
                    g[row][c]
                } else if c - n >= col {
                    g[row][c - n]
                } else {
                    blank()
                },
        ),
    )
}

/// The smaller of two numbers.
pub open spec fn least(a: int, b: int) -> int {
    if a <= b {
        a
    } else {
        b
    }
}

/// The larger of two numbers.
pub open spec fn most(a: int, b: int) -> int {
    if a >= b {
        a
    } else {
        b
    }
}

/// Everything moves up one row.
pub open spec fn scrolled(s: Screen) -> Screen {
    Screen { cells: shift_up(s.cells, 0, 1), dirty: true, ..s }
}

/// The cursor goes down one row; on the last row the screen scrolls instead.
pub open spec fn line_feed(s: Screen) -> Screen {
    if s.row + 1 >= TERM_ROWS {
        Screen { row: TERM_ROWS - 1, ..scrolled(s) }
    } else {
        Screen { row: s.row + 1, ..s }
    }
}

/// `ch` is written at the cursor, on the next row where the current one is full.
pub open spec fn put(s: Screen, ch: char) -> Screen {
    let t = if s.col >= TERM_COLS {
        Screen { col: 0, ..line_feed(s) }
    } else {
        s
    };
    Screen {
        cells: fill(t.cells, t.row, t.col, t.col + 1, Cell { ch, fg: t.fg, bg: t.bg }),
        col: t.col + 1,
        dirty: true,
        ..t
    }
}

/// Spaces up to the next multiple of eight columns, at most to the end of the row.
pub open spec fn tab(s: Screen) -> Screen {
    if s.col >= TERM_COLS {
        s
    } else {
        let next = least((s.col / 8 + 1) * 8, TERM_COLS as int);
        Screen {
            cells: fill(s.cells, s.row, s.col, next, Cell { ch: ' ', fg: s.fg, bg: s.bg }),
            col: next,
            dirty: true,
            ..s
        }
    }
}

/// What one byte of plain text does.
pub open spec fn normal_step(s: Screen, b: u8) -> Screen {
    if b == 0x1B {
        Screen { state: ParseState::Esc, ..s }
    } else if b as char == '\n' {
        Screen { dirty: true, ..line_feed(s) }
    } else if b as char == '\r' {
        Screen { col: 0, dirty: true, ..s }
    } else if b == 0x08 {
        Screen { col: most(s.col - 1, 0), dirty: true, ..s }
    } else if b as char == '\t' {
        tab(s)
    } else if b < 0x20 {
        s
    } else {
        put(s, b as char)
    }
}

/// What the byte behind an ESC does.
pub open spec fn esc_step(s: Screen, b: u8) -> Screen {
    if b as char == '[' {
        Screen { params: Seq::empty(), state: ParseState::Csi, ..s }
    } else if b as char == ']' {
        Screen { state: ParseState::Osc, ..s }
    } else if b as char == '(' || b as char == ')' || b as char == '#' {
        Screen { state: ParseState::Other, ..s }
    } else {
        let t = Screen { state: ParseState::Normal, ..s };
        if b as char == '7' {
            Screen { saved_row: s.row, saved_col: s.col, ..t }
        } else if b as char == '8' {
            Screen { row: s.saved_row, col: s.saved_col, ..t }
        } else if b as char == 'c' {
            Screen {
                cells: blank_grid(),
                row: 0,
                col: 0,
                fg: color::default_fg(),
                bg: color::default_bg(),
                bold: false,
                dirty: true,
                ..t
            }
        } else if b as char == 'D' {
            line_feed(t)
        } else if b as char == 'M' {
            if s.row == 0 {
                Screen { cells: shift_down(s.cells, 0, 1), dirty: true, ..t }
            } else {
                Screen { row: s.row - 1, dirty: true, ..t }
            }
        } else {
            t
        }
    }
}

/// Where a byte leads inside a string for the operating system: BEL ends it, and so does `ESC \`.
pub open spec fn osc_next(state: ParseState, b: u8) -> ParseState {
    if b == 0x07 || (state == ParseState::OscEsc && b as char == '\\') {
        ParseState::Normal
    } else if b == 0x1B {
        ParseState::OscEsc
    } else {
        ParseState::Osc
    }
}

/// Whether `b` ends another skipped sequence.
pub open spec fn ends_other(b: u8) -> bool {
    b == 0x07 || b as char == '\\' || (0x40 <= b <= 0x7E && b as char != '[')
}

/// The number that decimal digits write, if there are any and it fits 16 bits; else 0.
pub open spec fn param_value(p: Seq<u8>) -> u16 {
    if p.len() > 0 && digits_number(p) <= 0xffff {
        digits_number(p) as u16
    } else {
        0
    }
}

/// The number that the decimal digits of `p` write.
pub open spec fn digits_number(p: Seq<u8>) -> nat
    decreases p.len(),
{
    if p.len() == 0 {
        0
    } else {
        digits_number(p.drop_last()) * 10 + (p.last() - 48) as nat
    }
}

/// The parameters of a control sequence: numbers between semicolons, question marks left out.
pub open spec fn param_list(params: Seq<u8>) -> Seq<u16> {
    if params.len() == 0 {
        Seq::empty()
    } else {
        text::split_on(params.filter(|b: u8| b as char != '?'), ';' as u8).map_values(|p: Seq<u8>| param_value(p))
    }
}

/// Parameter `i`, 0 where it was left out.
pub open spec fn param(ps: Seq<u16>, i: int) -> int {
    if i < ps.len() {
        ps[i] as int
    } else {
        0
    }
}

/// A count or a one-based position: 0 and nothing mean 1.
pub open spec fn at_least_one(p: int) -> int {
    if p == 0 {
        1
    } else {
        p
    }
}

/// Colours and weight of the text that follows.
pub struct Pen {
    pub fg: Rgb565,
    pub bg: Rgb565,
    pub bold: bool,
}

/// The pen of a fresh terminal.
pub open spec fn default_pen() -> Pen {
    Pen { fg: color::default_fg(), bg: color::default_bg(), bold: false }
}

/// What one attribute other than 38 and 48 does to the pen.
pub open spec fn attribute(pen: Pen, p: int) -> Pen {
    if p == 0 {
        default_pen()
    } else if p == 1 {
        Pen { bold: true, ..pen }
    } else if p == 22 {
        Pen { bold: false, ..pen }
    } else if p == 7 || p == 27 {
        Pen { fg: pen.bg, bg: pen.fg, ..pen }
    } else if 30 <= p <= 37 {
        Pen {
            fg: color::ansi(
                if pen.bold {
                    p - 30 + 8
                } else {
                    p - 30
                },
            ),
            ..pen
        }
    } else if p == 39 {
        Pen { fg: color::default_fg(), ..pen }
    } else if 40 <= p <= 47 {
        Pen { bg: color::ansi(p - 40), ..pen }
    } else if p == 49 {
        Pen { bg: color::default_bg(), ..pen }
    } else if 90 <= p <= 97 {
        Pen { fg: color::ansi(p - 90 + 8), ..pen }
    } else if 100 <= p <= 107 {
        Pen { bg: color::ansi(p - 100 + 8), ..pen }
    } else {
        pen
    }
}

/// What the attributes from position `i` on do to the pen.
pub open spec fn attributes(pen: Pen, ps: Seq<u16>, i: int) -> Pen
    decreases ps.len() - i,
{
    if i < 0 || i >= ps.len() {
        pen
    } else if (ps[i] == 38 || ps[i] == 48) && i + 2 < ps.len() && ps[i + 1] == 5 {
        let color = color::palette(ps[i + 2] as int);
        let next = if ps[i] == 38 {
            Pen { fg: color, ..pen }
        } else {
            Pen { bg: color, ..pen }
        };
        attributes(next, ps, i + 3)
    } else {
        attributes(attribute(pen, ps[i] as int), ps, i + 1)
    }
}

/// What select-graphic-rendition with these parameters does to the pen.
pub open spec fn render(pen: Pen, ps: Seq<u16>) -> Pen {
    if ps.len() == 0 {
        default_pen()
    } else {
        attributes(pen, ps, 0)
    }
}

/// Erase in display.
pub open spec fn erase_display(s: Screen, p: int) -> Seq<Seq<Cell>> {
    if p == 0 {
        blank_rows(
            fill(s.cells, s.row, s.col, TERM_COLS as int, blank()),
            s.row + 1,
            TERM_ROWS as int,
        )
    } else if p == 1 {
        fill(blank_rows(s.cells, 0, s.row), s.row, 0, s.col + 1, blank())
    } else if p == 2 || p == 3 {
        blank_grid()
    } else {
        s.cells
    }
}

/// Erase in line.
pub open spec fn erase_line(s: Screen, p: int) -> Seq<Seq<Cell>> {
    if p == 0 {
        fill(s.cells, s.row, s.col, TERM_COLS as int, blank())
    } else if p == 1 {
        fill(s.cells, s.row, 0, s.col + 1, blank())
    } else if p == 2 {
        fill(s.cells, s.row, 0, TERM_COLS as int, blank())
    } else {
        s.cells
    }
}

/// What the control sequence with parameters `ps` and final byte `cmd` does.
pub open spec fn csi(s: Screen, ps: Seq<u16>, cmd: u8) -> Screen {
    let p1 = param(ps, 0);
    let p2 = param(ps, 1);
    let n = at_least_one(p1);
    if cmd as char == 'A' {
        Screen { row: most(s.row - n, 0), dirty: true, ..s }
    } else if cmd as char == 'B' {
        Screen { row: least(s.row + n, TERM_ROWS - 1), dirty: true, ..s }
    } else if cmd as char == 'C' {
        Screen { col: least(s.col + n, TERM_COLS - 1), dirty: true, ..s }
    } else if cmd as char == 'D' {
        Screen { col: most(s.col - n, 0), dirty: true, ..s }
    } else if cmd as char == 'H' || cmd as char == 'f' {
        Screen {
            row: least(n - 1, TERM_ROWS - 1),
            col: least(at_least_one(p2) - 1, TERM_COLS - 1),
            dirty: true,
            ..s
        }
    } else if cmd as char == 'J' {
        Screen { cells: erase_display(s, p1), dirty: true, ..s }
    } else if cmd as char == 'K' {
        Screen { cells: erase_line(s, p1), dirty: true, ..s }
    } else if cmd as char == 'G' {
        Screen { col: least(n - 1, TERM_COLS - 1), dirty: true, ..s }
    } else if cmd as char == 'd' {
        Screen { row: least(n - 1, TERM_ROWS - 1), dirty: true, ..s }
    } else if cmd as char == 'S' {
        Screen { cells: shift_up(s.cells, 0, n), dirty: true, ..s }
    } else if cmd as char == 'T' {
        Screen { cells: shift_down(s.cells, 0, n), dirty: true, ..s }
    } else if cmd as char == 'L' {
        Screen { cells: shift_down(s.cells, s.row, n), dirty: true, ..s }
    } else if cmd as char == 'M' {
        Screen { cells: shift_up(s.cells, s.row, n), dirty: true, ..s }
    } else if cmd as char == 'P' {
        Screen { cells: delete_chars(s.cells, s.row, s.col, n), dirty: true, ..s }
    } else if cmd as char == '@' {
        Screen { cells: insert_chars(s.cells, s.row, s.col, n), dirty: true, ..s }
    } else if cmd as char == 'X' {
        Screen { cells: fill(s.cells, s.row, s.col, s.col + n, blank()), dirty: true, ..s }
    } else if cmd as char == 'm' {
        let pen = render(Pen { fg: s.fg, bg: s.bg, bold: s.bold }, ps);
        Screen { fg: pen.fg, bg: pen.bg, bold: pen.bold, ..s }
    } else if cmd as char == 's' {
        Screen { saved_row: s.row, saved_col: s.col, ..s }
    } else if cmd as char == 'u' {
        Screen { row: s.saved_row, col: s.saved_col, dirty: true, ..s }
    } else {
        s
    }
}

/// What one received byte does.
pub open spec fn step(s: Screen, b: u8) -> Screen {
    match s.state {
        ParseState::Normal => normal_step(s, b),
        ParseState::Esc => esc_step(s, b),
        ParseState::Csi => if is_param(b) {
            Screen { params: s.params.push(b), ..s }
        } else {
            Screen { state: ParseState::Normal, ..csi(s, param_list(s.params), b) }
        },
        ParseState::Osc => Screen { state: osc_next(s.state, b), ..s },
        ParseState::OscEsc => Screen { state: osc_next(s.state, b), ..s },
        ParseState::Other => if ends_other(b) {
            Screen { state: ParseState::Normal, ..s }
        } else {
            s
        },
    }
}

/// What received bytes do, one after another.
pub open spec fn fed(s: Screen, data: Seq<u8>) -> Screen
    decreases data.len(),
{
    if data.len() == 0 {
        s
    } else {
        step(fed(s, data.drop_last()), data.last())
    }
}

/// The terminal emulator.
pub struct AnsiTerminal {
    cells: [[Cell; TERM_COLS]; TERM_ROWS],
    cursor_row: usize,
    cursor_col: usize,
    saved_row: usize,
    saved_col: usize,
    fg: Rgb565,
    bg: Rgb565,
    bold: bool,
    parse_state: ParseState,
    csi_params: Vec<u8>,
    dirty: bool,
}

/// The cells of a grid, row by row.
pub open spec fn grid(cells: [[Cell; TERM_COLS]; TERM_ROWS]) -> Seq<Seq<Cell>> {
    Seq::new(TERM_ROWS as nat, |r: int| cells@[r]@)
}

impl View for AnsiTerminal {
    type V = Screen;

    closed spec fn view(&self) -> Screen {
        Screen {
            cells: grid(self.cells),
            row: self.cursor_row as int,
            col: self.cursor_col as int,
            saved_row: self.saved_row as int,
            saved_col: self.saved_col as int,
            fg: self.fg,
            bg: self.bg,
            bold: self.bold,
            state: self.parse_state,
            params: self.csi_params@,
            dirty: self.dirty,
        }
    }
}

impl Cell {
    /// A cell that nothing was written to.
    pub fn blank() -> (c: Cell)
        ensures
            c == blank(),
    {
        Cell { ch: ' ', fg: ansi_color(7), bg: ansi_color(0) }
    }
}

/// A row of blank cells.
pub fn blank_cells() -> (row: [Cell; TERM_COLS])
    ensures
        row@ == blank_row(),
{
    let b = Cell::blank();
    let row = [b;TERM_COLS];
    proof {
        assert(row@ =~= blank_row());
    }
    row
}

/// A grid of blank cells.
pub fn blank_screen() -> (cells: [[Cell; TERM_COLS]; TERM_ROWS])
    ensures
        grid(cells) == blank_grid(),
{
    let row = blank_cells();
    let cells = [row;TERM_ROWS];
    proof {
        assert(grid(cells) =~= blank_grid());
    }
    cells
}

impl AnsiTerminal {
    /// A blank terminal with the cursor in the top left corner.
    pub fn new() -> (t: AnsiTerminal)
        ensures
            t@ == fresh(),
            t@.wf(),
    {
        AnsiTerminal {
            cells: blank_screen(),
            cursor_row: 0,
            cursor_col: 0,
            saved_row: 0,
            saved_col: 0,
            fg: ansi_color(7),
            bg: ansi_color(0),
            bold: false,
            parse_state: ParseState::Normal,
            csi_params: Vec::new(),
            dirty: true,
        }
    }

    /// Moves the rows from `top` on up by one row.
    fn row_up(&mut self, top: usize)
        requires
            top < TERM_ROWS,
        ensures
            final(self)@ == (Screen { cells: shift_up(old(self)@.cells, top as int, 1), ..old(self)@ }),
    {
        let blank = blank_cells();
        for r in top..(TERM_ROWS - 1)
            invariant
                top < TERM_ROWS,
                *self == (AnsiTerminal { cells: self.cells, ..*old(self) }),
                forall|i: int|
                    0 <= i < TERM_ROWS ==> #[trigger] self.cells@[i] == if top <= i < r {
                        old(self).cells@[i + 1]
                    } else {
                        old(self).cells@[i]
                    },
        {
            self.cells[r] = self.cells[r + 1];
        }
        self.cells[TERM_ROWS - 1] = blank;
        proof {
            assert(self@.cells =~= shift_up(old(self)@.cells, top as int, 1));
        }
    }

    /// Moves the rows from `top` on down by one row.
    fn row_down(&mut self, top: usize)
        requires
            top < TERM_ROWS,
        ensures
            final(self)@ == (Screen {
                cells: shift_down(old(self)@.cells, top as int, 1),
                ..old(self)@
            }),
    {
        let blank = blank_cells();
        let mut r: usize = TERM_ROWS - 1;
        while r > top
            invariant
                top <= r < TERM_ROWS,
                *self == (AnsiTerminal { cells: self.cells, ..*old(self) }),
                forall|i: int|
                    0 <= i < TERM_ROWS ==> #[trigger] self.cells@[i] == if i > r {
                        old(self).cells@[i - 1]
                    } else {
                        old(self).cells@[i]
                    },
            decreases r,
        {
            self.cells[r] = self.cells[r - 1];
            r = r - 1;
        }
        self.cells[top] = blank;
        proof {
            assert(self@.cells =~= shift_down(old(self)@.cells, top as int, 1));
        }
    }

    /// Writes `cell` to columns `from..to` of a row.
    fn fill_cells(&mut self, row: usize, from: usize, to: usize, cell: Cell)
        requires
            row < TERM_ROWS,
            to <= TERM_COLS,
        ensures
            final(self)@ == (Screen {
                cells: fill(old(self)@.cells, row as int, from as int, to as int, cell),
                ..old(self)@
            }),
    {
        let mut c: usize = from;
        while c < to
            invariant
                row < TERM_ROWS,
                from <= c,
                c <= to || c == from,
                to <= TERM_COLS,
                *self == (AnsiTerminal { cells: self.cells, ..*old(self) }),
                forall|i: int|
                    0 <= i < TERM_ROWS && i != row ==> #[trigger] self.cells@[i] == old(
                        self,
                    ).cells@[i],
                forall|i: int|
                    0 <= i < TERM_COLS ==> #[trigger] self.cells@[row as int]@[i] == if from <= i
                        && i < c {
                        cell
                    } else {
                        old(self).cells@[row as int]@[i]
                    },
            decreases to - c,
        {
            self.cells[row][c] = cell;
            c = c + 1;
        }
        proof {
            let want = fill(old(self)@.cells, row as int, from as int, to as int, cell);
            assert(self@.cells[row as int] =~= want[row as int]);
            assert(self@.cells =~= want);
        }
    }

    /// Makes every cell blank.
    pub fn clear_all(&mut self)
        ensures
            final(self)@ == (Screen { cells: blank_grid(), dirty: true, ..old(self)@ }),
    {
        self.cells = blank_screen();
        self.dirty = true;
    }

    /// Scrolls the terminal up by one line.
    pub fn scroll_up(&mut self)
        ensures
            final(self)@ == scrolled(old(self)@),
    {
        self.row_up(0);
        self.dirty = true;
    }

    /// Moves the cursor down, scrolling on the last row.
    fn feed_line(&mut self)
        requires
            old(self)@.wf(),
        ensures
            final(self)@ == line_feed(old(self)@),
            final(self)@.wf(),
    {
        if self.cursor_row + 1 >= TERM_ROWS {
            self.scroll_up();
            self.cursor_row = TERM_ROWS - 1;
        } else {
            self.cursor_row = self.cursor_row + 1;
        }
    }

    /// Puts a character at the cursor and advances.
    pub fn put_char(&mut self, ch: char)
        requires
            old(self)@.wf(),
        ensures
            final(self)@ == put(old(self)@, ch),
            final(self)@.wf(),
    {
        if self.cursor_col >= TERM_COLS {
            self.feed_line();
            self.cursor_col = 0;
        }
        let cell = Cell { ch, fg: self.fg, bg: self.bg };
        let (row, col): (usize, usize) = (self.cursor_row, self.cursor_col);
        self.fill_cells(row, col, col + 1, cell);
        self.cursor_col = col + 1;
        self.dirty = true;
    }

    /// Advances to the next tab stop, writing spaces.
    fn put_tab(&mut self)
        requires
            old(self)@.wf(),
        ensures
            final(self)@ == tab(old(self)@),
            final(self)@.wf(),
    {
        if self.cursor_col < TERM_COLS {
            let stop: usize = (self.cursor_col / 8 + 1) * 8;
            let next: usize = if stop > TERM_COLS {
                TERM_COLS
            } else {
                stop
            };
            let cell = Cell { ch: ' ', fg: self.fg, bg: self.bg };
            let (row, col): (usize, usize) = (self.cursor_row, self.cursor_col);
            self.fill_cells(row, col, next, cell);
            self.cursor_col = next;
            self.dirty = true;
        }
    }

    /// Makes rows `from..to` blank.
    fn blank_lines(&mut self, from: usize, to: usize)
        requires
            from <= to <= TERM_ROWS,
        ensures
            final(self)@ == (Screen {
                cells: blank_rows(old(self)@.cells, from as int, to as int),
                ..old(self)@
            }),
    {
        let blank = blank_cells();
        let mut r: usize = from;
        while r < to
            invariant
                from <= r <= to <= TERM_ROWS,
                blank@ == blank_row(),
                *self == (AnsiTerminal { cells: self.cells, ..*old(self) }),
                forall|i: int|
                    0 <= i < TERM_ROWS ==> #[trigger] self.cells@[i] == if from <= i < r {
                        blank
                    } else {
                        old(self).cells@[i]
                    },
            decreases to - r,
        {
            self.cells[r] = blank;
            r = r + 1;
        }
        proof {
            assert(self@.cells =~= blank_rows(old(self)@.cells, from as int, to as int));
        }
    }

    /// Moves the rows from `top` on up by `n` rows.
    fn rows_up(&mut self, top: usize, n: usize)
        requires
            top < TERM_ROWS,
            old(self)@.wf(),
        ensures
            final(self)@ == (Screen {
                cells: shift_up(old(self)@.cells, top as int, n as int),
                ..old(self)@
            }),
            final(self)@.wf(),
    {
        proof {
            assert(shift_up(self@.cells, top as int, 0) =~= self@.cells);
        }
        for i in 0..n
            invariant
                top < TERM_ROWS,
                self@ == (Screen {
                    cells: shift_up(old(self)@.cells, top as int, i as int),
                    ..old(self)@
                }),
        {
            self.row_up(top);
            proof {
                assert(self@.cells =~= shift_up(old(self)@.cells, top as int, i + 1));
            }
        }
    }

    /// Moves the rows from `top` on down by `n` rows.
    fn rows_down(&mut self, top: usize, n: usize)
        requires
            top < TERM_ROWS,
            old(self)@.wf(),
        ensures
            final(self)@ == (Screen {
                cells: shift_down(old(self)@.cells, top as int, n as int),
                ..old(self)@
            }),
            final(self)@.wf(),
    {
        proof {
            assert(shift_down(self@.cells, top as int, 0) =~= self@.cells);
        }
        for i in 0..n
            invariant
                top < TERM_ROWS,
                self@ == (Screen {
                    cells: shift_down(old(self)@.cells, top as int, i as int),
                    ..old(self)@
                }),
        {
            self.row_down(top);
            proof {
                assert(self@.cells =~= shift_down(old(self)@.cells, top as int, i + 1));
            }
        }
    }

    /// Deletes `n` characters at the cursor.
    fn delete_at_cursor(&mut self, n: usize)
        requires
            old(self)@.wf(),
        ensures
            final(self)@ == (Screen {
                cells: delete_chars(old(self)@.cells, old(self)@.row, old(self)@.col, n as int),
                ..old(self)@
            }),
            final(self)@.wf(),
    {
        let (row, col): (usize, usize) = (self.cursor_row, self.cursor_col);
        let m: usize = if n < TERM_COLS - col {
            n
        } else {
            TERM_COLS - col
        };
        let empty = Cell::blank();
        let mut c: usize = col;
        while c < TERM_COLS
            invariant
                row < TERM_ROWS,
                col <= c <= TERM_COLS,
                m <= TERM_COLS - col,
                m == n || (m == TERM_COLS - col && m <= n),
                empty == blank(),
                *self == (AnsiTerminal { cells: self.cells, ..*old(self) }),
                forall|i: int|
                    0 <= i < TERM_ROWS && i != row ==> #[trigger] self.cells@[i] == old(
                        self,
                    ).cells@[i],
                forall|i: int|
                    0 <= i < TERM_COLS ==> #[trigger] self.cells@[row as int]@[i] == if col <= i
                        && i < c {
                        if i + n < TERM_COLS {
                            old(self).cells@[row as int]@[i + n]
                        } else {
                            empty
                        }
                    } else {
                        old(self).cells@[row as int]@[i]
                    },
            decreases TERM_COLS - c,
        {
            if c < TERM_COLS - m {
                self.cells[row][c] = self.cells[row][c + m];
            } else {
                self.cells[row][c] = empty;
            }
            c = c + 1;
        }
        proof {
            let want = delete_chars(old(self)@.cells, row as int, col as int, n as int);
            assert(self@.cells[row as int] =~= want[row as int]);
            assert(self@.cells =~= want);
        }
    }

    /// Inserts `n` blanks at the cursor.
    fn insert_at_cursor(&mut self, n: usize)
        requires
            old(self)@.wf(),
        ensures
            final(self)@ == (Screen {
                cells: insert_chars(old(self)@.cells, old(self)@.row, old(self)@.col, n as int),
                ..old(self)@
            }),
            final(self)@.wf(),
    {
        let (row, col): (usize, usize) = (self.cursor_row, self.cursor_col);
        let m: usize = if n < TERM_COLS - col {
            n
        } else {
            TERM_COLS - col
        };
        let empty = Cell::blank();
        let mut c: usize = TERM_COLS;
        while c > col
            invariant
                row < TERM_ROWS,
                col <= c <= TERM_COLS,
                m <= TERM_COLS - col,
                m == n || (m == TERM_COLS - col && m <= n),
                empty == blank(),
                *self == (AnsiTerminal { cells: self.cells, ..*old(self) }),
                forall|i: int|
                    0 <= i < TERM_ROWS && i != row ==> #[trigger] self.cells@[i] == old(
                        self,
                    ).cells@[i],
                forall|i: int|
                    0 <= i < TERM_COLS ==> #[trigger] self.cells@[row as int]@[i] == if i >= c {
                        if i - n >= col {
                            old(self).cells@[row as int]@[i - n]
                        } else {
                            empty
                        }
                    } else {
                        old(self).cells@[row as int]@[i]
                    },
            decreases c,
        {
            c = c - 1;
            if c >= col + m {
                self.cells[row][c] = self.cells[row][c - m];
            } else {
                self.cells[row][c] = empty;
            }
        }
        proof {
            let want = insert_chars(old(self)@.cells, row as int, col as int, n as int);
            assert(self@.cells[row as int] =~= want[row as int]);
            assert(self@.cells =~= want);
        }
    }

    /// The parameters read since `ESC [`.
    fn parse_params(&self) -> (ps: Vec<u16>)
        requires
            self@.wf(),
        ensures
            ps@ == param_list(self@.params),
    {
        let mut out: Vec<u16> = Vec::new();
        if self.csi_params.is_empty() {
            return out;
        }
        let ghost keep = |b: u8| b as char != '?';
        let ghost value = |p: Seq<u8>| param_value(p);
        let ghost all = self.csi_params@;
        let mut cur: u32 = 0;
        let mut digits: bool = false;
        let ghost mut piece = Seq::<u8>::empty();
        let mut i: usize = 0;
        proof {
            assert(all.take(0).filter(keep) =~= Seq::<u8>::empty()) by {
                reveal(Seq::filter);
            }
            assert(out@.push(param_value(piece)) =~= text::split_on(
                all.take(0).filter(keep),
                ';' as u8,
            ).map_values(value));
        }
        while i < self.csi_params.len()
            invariant
                i <= all.len(),
                all == self.csi_params@,
                self@.wf(),
                keep == (|b: u8| b as char != '?'),
                value == (|p: Seq<u8>| param_value(p)),
                ({
                    let parts = text::split_on(all.take(i as int).filter(keep), ';' as u8);
                    &&& parts.len() > 0
                    &&& parts.last() == piece
                    &&& parts.drop_last().map_values(value) == out@
                }),
                digits == (piece.len() > 0),
                cur == if digits_number(piece) <= 0xffff {
                    digits_number(piece)
                } else {
                    0x1_0000
                },
            decreases all.len() - i,
        {
            let b: u8 = self.csi_params[i];
            let ghost before = text::split_on(all.take(i as int).filter(keep), ';' as u8);
            proof {
                assert(is_param(self@.params[i as int]));
                assert(all.take(i + 1).drop_last() =~= all.take(i as int));
                reveal(Seq::filter);
            }
            if b as char == '?' {
            } else if b as char == ';' {
                out.push(
                    if digits && cur <= 0xffff {
                        cur as u16
                    } else {
                        0
                    },
                );
                proof {
                    let now = all.take(i + 1).filter(keep);
                    assert(now.drop_last() =~= all.take(i as int).filter(keep));
                    let parts = text::split_on(now, ';' as u8);
                    assert(parts.drop_last() =~= before);
                    assert(before =~= before.drop_last().push(piece));
                    assert(before.map_values(value) =~= before.drop_last().map_values(value).push(
                        param_value(piece),
                    ));
                    piece = Seq::<u8>::empty();
                }
                cur = 0;
                digits = false;
            } else {
                let next: u32 = if cur <= 0xffff {
                    cur * 10 + (b as u32 - 48)
                } else {
                    0x1_0000
                };
                cur = if next <= 0xffff {
                    next
                } else {
                    0x1_0000
                };
                digits = true;
                proof {
                    let now = all.take(i + 1).filter(keep);
                    assert(now.drop_last() =~= all.take(i as int).filter(keep));
                    let parts = text::split_on(now, ';' as u8);
                    assert(parts.drop_last() =~= before.drop_last());
                    let longer = piece.push(b);
                    assert(longer.drop_last() =~= piece);
                    piece = longer;
                }
            }
            i = i + 1;
        }
        let last: u16 = if digits && cur <= 0xffff {
            cur as u16
        } else {
            0
        };
        out.push(last);
        proof {
            assert(all.take(all.len() as int) =~= all);
            let parts = text::split_on(all.filter(keep), ';' as u8);
            assert(parts =~= parts.drop_last().push(piece));
            assert(out@ =~= parts.map_values(value));
            assert(out@ == param_list(self@.params));
        }
        out
    }

    /// Default colours, normal weight.
    fn sgr_reset(&mut self)
        ensures
            final(self)@ == (Screen {
                fg: color::default_fg(),
                bg: color::default_bg(),
                bold: false,
                ..old(self)@
            }),
    {
        self.fg = ansi_color(7);
        self.bg = ansi_color(0);
        self.bold = false;
    }

    /// Applies one attribute other than 38 and 48.
    fn set_attribute(&mut self, p: u16)
        ensures
            ({
                let o = old(self)@;
                let pen = attribute(Pen { fg: o.fg, bg: o.bg, bold: o.bold }, p as int);
                final(self)@ == (Screen { fg: pen.fg, bg: pen.bg, bold: pen.bold, ..o })
            }),
    {
        if p == 0 {
            self.sgr_reset();
        } else if p == 1 {
            self.bold = true;
        } else if p == 22 {
            self.bold = false;
        } else if p == 7 || p == 27 {
            let fg = self.fg;
            self.fg = self.bg;
            self.bg = fg;
        } else if p >= 30 && p <= 37 {
            let idx: usize = (p - 30) as usize;
            self.fg = if self.bold {
                ansi_color(idx + 8)
            } else {
                ansi_color(idx)
            };
        } else if p == 39 {
            self.fg = ansi_color(7);
        } else if p >= 40 && p <= 47 {
            self.bg = ansi_color((p - 40) as usize);
        } else if p == 49 {
            self.bg = ansi_color(0);
        } else if p >= 90 && p <= 97 {
            self.fg = ansi_color((p - 90 + 8) as usize);
        } else if p >= 100 && p <= 107 {
            self.bg = ansi_color((p - 100 + 8) as usize);
        }
    }

    /// Select graphic rendition.
    fn select_rendition(&mut self, ps: &Vec<u16>)
        ensures
            ({
                let o = old(self)@;
                let pen = render(Pen { fg: o.fg, bg: o.bg, bold: o.bold }, ps@);
                final(self)@ == (Screen { fg: pen.fg, bg: pen.bg, bold: pen.bold, ..o })
            }),
    {
        if ps.is_empty() {
            self.sgr_reset();
            return;
        }
        let ghost o = old(self)@;
        let ghost pen = Pen { fg: o.fg, bg: o.bg, bold: o.bold };
        let mut i: usize = 0;
        while i < ps.len()
            invariant
                o == old(self)@,
                pen == (Pen { fg: o.fg, bg: o.bg, bold: o.bold }),
                self@ == (Screen { fg: self@.fg, bg: self@.bg, bold: self@.bold, ..o }),
                i <= ps@.len(),
                attributes(pen, ps@, 0) == attributes(
                    Pen { fg: self@.fg, bg: self@.bg, bold: self@.bold },
                    ps@,
                    i as int,
                ),
            decreases ps@.len() - i,
        {
            let p: u16 = ps[i];
            if (p == 38 || p == 48) && ps.len() - i > 2 && ps[i + 1] == 5 {
                let c = color256_to_rgb565(ps[i + 2]);
                if p == 38 {
                    self.fg = c;
                } else {
                    self.bg = c;
                }
                i = i + 3;
            } else {
                self.set_attribute(p);
                i = i + 1;
            }
        }
    }

    /// Carries out the control sequence that ends in `cmd`.
    pub fn handle_csi(&mut self, cmd: u8)
        requires
            old(self)@.wf(),
        ensures
            final(self)@ == csi(old(self)@, param_list(old(self)@.params), cmd),
            final(self)@.wf(),
    {
        let ps = self.parse_params();
        let p1: u16 = if ps.len() > 0 {
            ps[0]
        } else {
            0
        };
        let p2: u16 = if ps.len() > 1 {
            ps[1]
        } else {
            0
        };
        let n: usize = if p1 == 0 {
            1
        } else {
            p1 as usize
        };
        let (row, col): (usize, usize) = (self.cursor_row, self.cursor_col);
        let cmd = cmd as char;
        if cmd == 'A' {
            self.cursor_row = row.saturating_sub(n);
            self.dirty = true;
        } else if cmd == 'B' {
            self.cursor_row = if row + n < TERM_ROWS {
                row + n
            } else {
                TERM_ROWS - 1
            };
            self.dirty = true;
        } else if cmd == 'C' {
            self.cursor_col = if col + n < TERM_COLS {
                col + n
            } else {
                TERM_COLS - 1
            };
            self.dirty = true;
        } else if cmd == 'D' {
            self.cursor_col = col.saturating_sub(n);
            self.dirty = true;
        } else if cmd == 'H' || cmd == 'f' {
            let m: usize = if p2 == 0 {
                1
            } else {
                p2 as usize
            };
            self.cursor_row = if n <= TERM_ROWS {
                n - 1
            } else {
                TERM_ROWS - 1
            };
            self.cursor_col = if m <= TERM_COLS {
                m - 1
            } else {
                TERM_COLS - 1
            };
            self.dirty = true;
        } else if cmd == 'J' {
            self.erase_in_display(p1);
        } else if cmd == 'K' {
            self.erase_in_line(p1);
        } else if cmd == 'G' {
            self.cursor_col = if n <= TERM_COLS {
                n - 1
            } else {
                TERM_COLS - 1
            };
            self.dirty = true;
        } else if cmd == 'd' {
            self.cursor_row = if n <= TERM_ROWS {
                n - 1
            } else {
                TERM_ROWS - 1
            };
            self.dirty = true;
        } else if cmd == 'S' {
            self.rows_up(0, n);
            self.dirty = true;
        } else if cmd == 'T' {
            self.rows_down(0, n);
            self.dirty = true;
        } else if cmd == 'L' {
            self.rows_down(row, n);
            self.dirty = true;
        } else if cmd == 'M' {
            self.rows_up(row, n);
            self.dirty = true;
        } else if cmd == 'P' {
            self.delete_at_cursor(n);
            self.dirty = true;
        } else if cmd == '@' {
            self.insert_at_cursor(n);
            self.dirty = true;
        } else if cmd == 'X' {
            let end: usize = if col + n < TERM_COLS {
                col + n
            } else {
                TERM_COLS
            };
            proof {
                lemma_fill_clipped(self@, row as int, col as int, col + n);
            }
            self.fill_cells(row, col, end, Cell::blank());
            self.dirty = true;
        } else if cmd == 'm' {
            self.select_rendition(&ps);
        } else if cmd == 's' {
            self.saved_row = row;
            self.saved_col = col;
        } else if cmd == 'u' {
            self.cursor_row = self.saved_row;
            self.cursor_col = self.saved_col;
            self.dirty = true;
        }
    }

    /// Erase in display.
    fn erase_in_display(&mut self, p: u16)
        requires
            old(self)@.wf(),
        ensures
            final(self)@ == (Screen {
                cells: erase_display(old(self)@, p as int),
                dirty: true,
                ..old(self)@
            }),
            final(self)@.wf(),
    {
        let (row, col): (usize, usize) = (self.cursor_row, self.cursor_col);
        if p == 0 {
            self.fill_cells(row, col, TERM_COLS, Cell::blank());
            self.blank_lines(row + 1, TERM_ROWS);
        } else if p == 1 {
            self.blank_lines(0, row);
            let end: usize = if col + 1 < TERM_COLS {
                col + 1
            } else {
                TERM_COLS
            };
            proof {
                lemma_fill_clipped(self@, row as int, 0, col + 1);
            }
            self.fill_cells(row, 0, end, Cell::blank());
        } else if p == 2 || p == 3 {
            self.clear_all();
        }
        self.dirty = true;
    }

    /// Erase in line.
    fn erase_in_line(&mut self, p: u16)
        requires
            old(self)@.wf(),
        ensures
            final(self)@ == (Screen {
                cells: erase_line(old(self)@, p as int),
                dirty: true,
                ..old(self)@
            }),
            final(self)@.wf(),
    {
        let (row, col): (usize, usize) = (self.cursor_row, self.cursor_col);
        if p == 0 {
            self.fill_cells(row, col, TERM_COLS, Cell::blank());
        } else if p == 1 {
            let end: usize = if col + 1 < TERM_COLS {
                col + 1
            } else {
                TERM_COLS
            };
            proof {
                lemma_fill_clipped(self@, row as int, 0, col + 1);
            }
            self.fill_cells(row, 0, end, Cell::blank());
        } else if p == 2 {
            self.fill_cells(row, 0, TERM_COLS, Cell::blank());
        }
        self.dirty = true;
    }

    /// Takes one received byte.
    fn feed_byte(&mut self, b: u8)
        requires
            old(self)@.wf(),
        ensures
            final(self)@ == step(old(self)@, b),
            final(self)@.wf(),
    {
        match self.parse_state {
            ParseState::Normal => {
                if b == 0x1B {
                    self.parse_state = ParseState::Esc;
                } else if b as char == '\n' {
                    self.feed_line();
                    self.dirty = true;
                } else if b as char == '\r' {
                    self.cursor_col = 0;
                    self.dirty = true;
                } else if b == 0x08 {
                    if self.cursor_col > 0 {
                        self.cursor_col = self.cursor_col - 1;
                    }
                    self.dirty = true;
                } else if b as char == '\t' {
                    self.put_tab();
                } else if b >= 0x20 {
                    self.put_char(b as char);
                }
            },
            ParseState::Esc => {
                self.escape(b as char);
            },
            ParseState::Csi => {
                let c = b as char;
                if (c >= '0' && c <= '9') || c == ';' || c == '?' {
                    self.csi_params.push(b);
                } else {
                    self.handle_csi(b);
                    self.parse_state = ParseState::Normal;
                }
            },
            ParseState::Osc => {
                if b == 0x07 {
                    self.parse_state = ParseState::Normal;
                } else if b == 0x1B {
                    self.parse_state = ParseState::OscEsc;
                }
            },
            ParseState::OscEsc => {
                if b == 0x07 || b as char == '\\' {
                    self.parse_state = ParseState::Normal;
                } else if b != 0x1B {
                    self.parse_state = ParseState::Osc;
                }
            },
            ParseState::Other => {
                if b == 0x07 || b as char == '\\' || (b >= 0x40 && b <= 0x7E && b as char != '[') {
                    self.parse_state = ParseState::Normal;
                }
            },
        }
    }

    /// Takes the character behind an ESC.
    fn escape(&mut self, c: char)
        requires
            old(self)@.wf(),
            c as u32 <= 0xff,
        ensures
            final(self)@ == esc_step(old(self)@, c as u8),
            final(self)@.wf(),
    {
        if c == '[' {
            self.csi_params = Vec::new();
            self.parse_state = ParseState::Csi;
        } else if c == ']' {
            self.parse_state = ParseState::Osc;
        } else if c == '(' || c == ')' || c == '#' {
            self.parse_state = ParseState::Other;
        } else {
            self.parse_state = ParseState::Normal;
            if c == '7' {
                self.saved_row = self.cursor_row;
                self.saved_col = self.cursor_col;
            } else if c == '8' {
                self.cursor_row = self.saved_row;
                self.cursor_col = self.saved_col;
            } else if c == 'c' {
                self.clear_all();
                self.cursor_row = 0;
                self.cursor_col = 0;
                self.sgr_reset();
            } else if c == 'D' {
                self.feed_line();
            } else if c == 'M' {
                if self.cursor_row == 0 {
                    self.row_down(0);
                } else {
                    self.cursor_row = self.cursor_row - 1;
                }
                self.dirty = true;
            }
        }
    }

    /// Feeds received bytes into the parser.
    pub fn feed(&mut self, data: &[u8])
        requires
            old(self)@.wf(),
        ensures
            final(self)@ == fed(old(self)@, data@),
            final(self)@.wf(),
    {
        let mut i: usize = 0;
        while i < data.len()
            invariant
                i <= data@.len(),
                self@.wf(),
                self@ == fed(old(self)@, data@.take(i as int)),
            decreases data@.len() - i,
        {
            proof {
                assert(data@.take(i + 1).drop_last() =~= data@.take(i as int));
            }
            self.feed_byte(data[i]);
            i = i + 1;
        }
        proof {
            assert(data@.take(data@.len() as int) =~= data@);
        }
    }
}

impl AnsiTerminal {
    /// The cell in row `row` and column `col`.
    pub fn cell(&self, row: usize, col: usize) -> (c: Cell)
        requires
            row < TERM_ROWS,
            col < TERM_COLS,
        ensures
            c == self@.cells[row as int][col as int],
    {
        self.cells[row][col]
    }

    /// All cells, row by row.
    pub fn cells(&self) -> (cells: [[Cell; TERM_COLS]; TERM_ROWS])
        ensures
            grid(cells) == self@.cells,
    {
        self.cells
    }

    /// Row and column of the cursor.
    pub fn cursor(&self) -> (at: (usize, usize))
        ensures
            at.0 == self@.row,
            at.1 == self@.col,
    {
        (self.cursor_row, self.cursor_col)
    }

    /// Whether something was written since the last call.
    pub fn take_dirty(&mut self) -> (dirty: bool)
        ensures
            dirty == old(self)@.dirty,
            final(self)@ == (Screen { dirty: false, ..old(self)@ }),
    {
        let dirty = self.dirty;
        self.dirty = false;
        dirty
    }
}

/// Bytes may arrive in pieces: feeding `a` and then `b` is feeding them at once.
pub proof fn law_feed_in_pieces(s: Screen, a: Seq<u8>, b: Seq<u8>)
    ensures
        fed(s, a + b) == fed(fed(s, a), b),
    decreases b.len(),
{
    if b.len() == 0 {
        assert(a + b =~= a);
    } else {
        law_feed_in_pieces(s, a, b.drop_last());
        assert((a + b).drop_last() =~= a + b.drop_last());
        assert((a + b).last() == b.last());
    }
}

/// No byte breaks the grid: it keeps its size and the cursors stay on it.
pub proof fn law_step_keeps_wf(s: Screen, b: u8)
    requires
        s.wf(),
    ensures
        step(s, b).wf(),
{
}

/// No received data breaks the grid.
pub proof fn law_feed_keeps_wf(s: Screen, data: Seq<u8>)
    requires
        s.wf(),
    ensures
        fed(s, data).wf(),
    decreases data.len(),
{
    if data.len() > 0 {
        law_feed_keeps_wf(s, data.drop_last());
        law_step_keeps_wf(fed(s, data.drop_last()), data.last());
    }
}

/// Whatever changes a cell marks the terminal as changed, and nothing received takes the mark
/// away.
pub proof fn law_change_is_marked(s: Screen, data: Seq<u8>)
    requires
        s.wf(),
    ensures
        fed(s, data).dirty || fed(s, data).cells == s.cells,
        s.dirty ==> fed(s, data).dirty,
    decreases data.len(),
{
    if data.len() > 0 {
        law_change_is_marked(s, data.drop_last());
    }
}

/// A printable byte appears at the cursor in the current colours, and nowhere else; the cursor
/// moves on.
pub proof fn law_printed_at_cursor(s: Screen, b: u8)
    requires
        s.wf(),
        s.state == ParseState::Normal,
        s.col < TERM_COLS,
        b >= 0x20,
    ensures
        step(s, b).cells[s.row][s.col] == (Cell { ch: b as char, fg: s.fg, bg: s.bg }),
        forall|r: int, c: int|
            0 <= r < TERM_ROWS && 0 <= c < TERM_COLS && (r != s.row || c != s.col) ==> (
            #[trigger] step(s, b).cells[r][c]) == s.cells[r][c],
        step(s, b).row == s.row,
        step(s, b).col == s.col + 1,
{
}

/// Whether byte `b` makes the terminal save the place of its cursor: the `7` of an `ESC 7` or the
/// `s` of a `CSI s`.
pub open spec fn saves(s: Screen, b: u8) -> bool {
    ||| s.state == ParseState::Esc && b as char == '7'
    ||| s.state == ParseState::Csi && b as char == 's'
}

/// Whether none of the bytes makes the terminal save the place of its cursor.
pub open spec fn never_saves(s: Screen, data: Seq<u8>) -> bool {
    forall|i: int|
        0 <= i < data.len() ==> !saves(fed(s, data.take(i)), #[trigger] data[i])
}

/// A byte that saves nothing leaves what was saved alone.
proof fn lemma_saved_stays(s: Screen, b: u8)
    requires
        !saves(s, b),
    ensures
        step(s, b).saved_row == s.saved_row,
        step(s, b).saved_col == s.saved_col,
{
}

/// What was saved stays until something else is saved.
pub proof fn law_saved_place_stays(s: Screen, data: Seq<u8>)
    requires
        never_saves(s, data),
    ensures
        fed(s, data).saved_row == s.saved_row,
        fed(s, data).saved_col == s.saved_col,
    decreases data.len(),
{
    if data.len() > 0 {
        let head = data.drop_last();
        assert forall|i: int| 0 <= i < head.len() implies !saves(
            fed(s, head.take(i)),
            #[trigger] head[i],
        ) by {
            assert(head.take(i) =~= data.take(i));
            assert(!saves(fed(s, data.take(i)), data[i]));
        }
        law_saved_place_stays(s, head);
        assert(data.take(data.len() - 1) =~= head);
        assert(!saves(fed(s, head), data[data.len() - 1]));
        lemma_saved_stays(fed(s, head), data.last());
    }
}

proof fn lemma_esc_saves(s: Screen)
    requires
        s.state == ParseState::Normal,
    ensures
        fed(s, seq![0x1Bu8, 0x37u8]).saved_row == s.row,
        fed(s, seq![0x1Bu8, 0x37u8]).saved_col == s.col,
{
    lemma_two_bytes(s, 0x1B, 0x37);
}

proof fn lemma_csi_saves(s: Screen)
    requires
        s.state == ParseState::Normal,
    ensures
        fed(s, seq![0x1Bu8, 0x5Bu8, 0x73u8]).saved_row == s.row,
        fed(s, seq![0x1Bu8, 0x5Bu8, 0x73u8]).saved_col == s.col,
{
    lemma_three_bytes(s, 0x1B, 0x5B, 0x73);
}

proof fn lemma_esc_restores(s: Screen)
    requires
        s.state == ParseState::Normal,
    ensures
        fed(s, seq![0x1Bu8, 0x38u8]) == (Screen { row: s.saved_row, col: s.saved_col, ..s }),
{
    lemma_two_bytes(s, 0x1B, 0x38);
}

proof fn lemma_csi_restores(s: Screen)
    requires
        s.state == ParseState::Normal,
    ensures
        fed(s, seq![0x1Bu8, 0x5Bu8, 0x75u8]) == (Screen {
            row: s.saved_row,
            col: s.saved_col,
            params: Seq::empty(),
            dirty: true,
            ..s
        }),
{
    lemma_three_bytes(s, 0x1B, 0x5B, 0x75);
}

/// Both ways to restore put the cursor where the saved place is.
proof fn lemma_restored(s: Screen, row: int, col: int)
    requires
        s.state == ParseState::Normal,
        s.saved_row == row,
        s.saved_col == col,
    ensures
        restored(s, row, col),
{
    lemma_esc_restores(s);
    lemma_csi_restores(s);
}

/// Whether `ESC 8` and `CSI u` both put the cursor at a place and change nothing else that is shown.
pub open spec fn restored(s: Screen, row: int, col: int) -> bool {
    &&& fed(s, seq![0x1Bu8, 0x38u8]) == (Screen { row, col, ..s })
    &&& fed(s, seq![0x1Bu8, 0x5Bu8, 0x75u8]) == (Screen {
        row,
        col,
        params: Seq::empty(),
        dirty: true,
        ..s
    })
}

/// `ESC 8` and `CSI u` put the cursor back where it stood at the last `ESC 7`, whatever came
/// between: `data`, which saves nothing and ends outside any sequence.
pub proof fn law_cursor_restored(s: Screen, data: Seq<u8>)
    requires
        s.state == ParseState::Normal,
        never_saves(fed(s, seq![0x1Bu8, 0x37u8]), data),
        fed(fed(s, seq![0x1Bu8, 0x37u8]), data).state == ParseState::Normal,
    ensures
        restored(fed(fed(s, seq![0x1Bu8, 0x37u8]), data), s.row, s.col),
{
    lemma_esc_saves(s);
    law_saved_place_stays(fed(s, seq![0x1Bu8, 0x37u8]), data);
    lemma_restored(fed(fed(s, seq![0x1Bu8, 0x37u8]), data), s.row, s.col);
}

/// `ESC 8` and `CSI u` put the cursor back where it stood at the last `CSI s` just as well.
pub proof fn law_cursor_restored_csi(s: Screen, data: Seq<u8>)
    requires
        s.state == ParseState::Normal,
        never_saves(fed(s, seq![0x1Bu8, 0x5Bu8, 0x73u8]), data),
        fed(fed(s, seq![0x1Bu8, 0x5Bu8, 0x73u8]), data).state == ParseState::Normal,
    ensures
        restored(fed(fed(s, seq![0x1Bu8, 0x5Bu8, 0x73u8]), data), s.row, s.col),
{
    lemma_csi_saves(s);
    law_saved_place_stays(fed(s, seq![0x1Bu8, 0x5Bu8, 0x73u8]), data);
    lemma_restored(fed(fed(s, seq![0x1Bu8, 0x5Bu8, 0x73u8]), data), s.row, s.col);
}

/// Whether a string for the operating system is over before the end of `title`.
pub open spec fn closes(title: Seq<u8>) -> bool {
    exists|i: int|
        0 <= i < title.len() && (#[trigger] title[i] == 0x07 || (i > 0 && title[i - 1] == 0x1B
            && title[i] as char == '\\'))
}

/// A string for the operating system, such as a window title, shows nothing and changes nothing,
/// whether BEL or `ESC \` ends it.
pub proof fn law_osc_is_skipped(s: Screen, title: Seq<u8>)
    requires
        s.state == ParseState::Normal,
        !closes(title),
    ensures
        fed(s, seq![0x1Bu8, 0x5Du8] + title + seq![0x07u8]) == s,
        fed(s, seq![0x1Bu8, 0x5Du8] + title + seq![0x1Bu8, 0x5Cu8]) == s,
{
    let open = seq![0x1Bu8, 0x5Du8];
    lemma_osc_opens(s);
    lemma_inside_osc(fed(s, open), title);
    law_feed_in_pieces(s, open, title);
    law_feed_in_pieces(s, open + title, seq![0x07u8]);
    law_feed_in_pieces(s, open + title, seq![0x1Bu8, 0x5Cu8]);
    lemma_osc_ends(fed(s, open + title));
}

proof fn lemma_osc_opens(s: Screen)
    requires
        s.state == ParseState::Normal,
    ensures
        fed(s, seq![0x1Bu8, 0x5Du8]) == (Screen { state: ParseState::Osc, ..s }),
{
    lemma_two_bytes(s, 0x1B, 0x5D);
}

proof fn lemma_osc_ends(s: Screen)
    requires
        s.state == ParseState::Osc || s.state == ParseState::OscEsc,
    ensures
        fed(s, seq![0x07u8]) == (Screen { state: ParseState::Normal, ..s }),
        fed(s, seq![0x1Bu8, 0x5Cu8]) == (Screen { state: ParseState::Normal, ..s }),
{
    lemma_two_bytes(s, 0x1B, 0x5C);
    reveal_with_fuel(fed, 2);
    assert(seq![0x07u8].drop_last() =~= Seq::<u8>::empty());
}

/// Inside a string for the operating system, only how much of it was read changes.
proof fn lemma_inside_osc(s: Screen, title: Seq<u8>)
    requires
        s.state == ParseState::Osc,
        !closes(title),
    ensures
        fed(s, title) == (Screen {
            state: if title.len() > 0 && title.last() == 0x1B {
                ParseState::OscEsc
            } else {
                ParseState::Osc
            },
            ..s
        }),
    decreases title.len(),
{
    if title.len() > 0 {
        let head = title.drop_last();
        let last = title.len() - 1;
        assert(!closes(head)) by {
            if closes(head) {
                let i = choose|i: int|
                    0 <= i < head.len() && (#[trigger] head[i] == 0x07 || (i > 0 && head[i - 1]
                        == 0x1B && head[i] as char == '\\'));
                assert(title[i] == head[i]);
                assert(i > 0 ==> title[i - 1] == head[i - 1]);
            }
        }
        lemma_inside_osc(s, head);
        assert(title[last] != 0x07);
        assert(last > 0 ==> head.last() == title[last - 1]);
    }
}

/// Feeding three bytes is three steps.
proof fn lemma_three_bytes(s: Screen, a: u8, b: u8, c: u8)
    ensures
        fed(s, seq![a, b, c]) == step(step(step(s, a), b), c),
{
    assert(seq![a, b, c].drop_last() =~= seq![a, b]);
    lemma_two_bytes(s, a, b);
}

/// Feeding two bytes is two steps.
proof fn lemma_two_bytes(s: Screen, a: u8, b: u8)
    ensures
        fed(s, seq![a, b]) == step(step(s, a), b),
{
    reveal_with_fuel(fed, 3);
    assert(seq![a, b].drop_last() =~= seq![a]);
    assert(seq![a].drop_last() =~= Seq::<u8>::empty());
}

/// `ESC c` brings back the screen of a fresh terminal; what was saved stays.
pub proof fn law_reset(s: Screen)
    requires
        s.wf(),
        s.state == ParseState::Normal,
    ensures
        fed(s, seq![0x1Bu8, 0x63u8]) == (Screen {
            saved_row: s.saved_row,
            saved_col: s.saved_col,
            params: s.params,
            ..fresh()
        }),
{
    lemma_two_bytes(s, 0x1B, 0x63);
}

/// Leaving reverse video undoes entering it.
pub proof fn law_reverse_twice(pen: Pen)
    ensures
        render(render(pen, seq![7u16]), seq![27u16]) == pen,
{
    reveal_with_fuel(attributes, 2);
}

/// Filling past the end of a row is filling to its end.
proof fn lemma_fill_clipped(s: Screen, row: int, from: int, to: int)
    requires
        0 <= row < s.cells.len(),
    ensures
        fill(s.cells, row, from, to, blank()) == fill(
            s.cells,
            row,
            from,
            least(to, TERM_COLS as int),
            blank(),
        ),
{
    let a = fill(s.cells, row, from, to, blank());
    let b = fill(s.cells, row, from, least(to, TERM_COLS as int), blank());
    assert(a[row] =~= b[row]);
    assert(a =~= b);
}

/// Whether all bytes are decimal digits.
pub open spec fn all_digits(d: Seq<u8>) -> bool {
    forall|i: int| 0 <= i < d.len() ==> 0x30 <= #[trigger] d[i] <= 0x39
}

/// The number that decimal digits write, the highest first.
pub open spec fn decimal_value(d: Seq<u8>) -> int
    decreases d.len(),
{
    if d.len() == 0 {
        0
    } else {
        decimal_value(d.drop_last()) * 10 + (d.last() - 0x30)
    }
}

/// Whether `params` give the number `p`: no digits give 0, and so does a number over 65535.
pub open spec fn gives(params: Seq<u8>, p: int) -> bool {
    &&& all_digits(params)
    &&& p == if decimal_value(params) <= 65535 {
        decimal_value(params)
    } else {
        0
    }
}

/// The screen after `ESC [`, parameters and a final byte.
pub open spec fn after_csi(s: Screen, params: Seq<u8>, cmd: u8) -> Screen {
    fed(s, seq![0x1Bu8, 0x5Bu8] + params + seq![cmd])
}

/// Whether a cell is empty: a space, white on black.
pub open spec fn is_empty_cell(c: Cell) -> bool {
    c.ch == ' ' && c.fg == (Rgb565 { r: 21, g: 42, b: 21 }) && c.bg == (Rgb565 { r: 0, g: 0, b: 0 })
}

/// Whether both cursors are the same.
pub open spec fn same_place(s: Screen, t: Screen) -> bool {
    s.row == t.row && s.col == t.col && s.saved_row == t.saved_row && s.saved_col == t.saved_col
}

/// Whether text would be written in the same colours.
pub open spec fn same_pen(s: Screen, t: Screen) -> bool {
    s.fg == t.fg && s.bg == t.bg && s.bold == t.bold
}

/// Whether an editing sequence left everything but the cells alone, and asks to be shown.
pub open spec fn only_cells(s: Screen, t: Screen) -> bool {
    &&& same_place(s, t)
    &&& same_pen(s, t)
    &&& t.state == ParseState::Normal
    &&& t.dirty
}

/// Whether a cursor movement left everything but the cursor alone, and asks to be shown.
pub open spec fn only_cursor(s: Screen, t: Screen) -> bool {
    &&& s.cells == t.cells
    &&& s.saved_row == t.saved_row
    &&& s.saved_col == t.saved_col
    &&& same_pen(s, t)
    &&& t.state == ParseState::Normal
    &&& t.dirty
}

proof fn lemma_params_fed(s: Screen, params: Seq<u8>)
    requires
        s.state == ParseState::Csi,
        forall|i: int| 0 <= i < params.len() ==> is_param(#[trigger] params[i]),
    ensures
        fed(s, params) == (Screen { params: s.params + params, ..s }),
    decreases params.len(),
{
    if params.len() > 0 {
        lemma_params_fed(s, params.drop_last());
        assert(is_param(params[params.len() - 1]));
        assert((s.params + params.drop_last()).push(params.last()) =~= s.params + params);
    } else {
        assert(s.params + params =~= s.params);
    }
}

proof fn lemma_csi_opens(s: Screen)
    requires
        s.state == ParseState::Normal,
    ensures
        fed(s, seq![0x1Bu8, 0x5Bu8]) == (Screen {
            state: ParseState::Csi,
            params: Seq::empty(),
            ..s
        }),
{
    lemma_two_bytes(s, 0x1B, 0x5B);
}

/// Feeding one byte is one step, and feeding none does nothing.
proof fn lemma_one_byte(s: Screen, b: u8)
    ensures
        fed(s, seq![b]) == step(s, b),
        fed(s, Seq::empty()) == s,
{
    reveal_with_fuel(fed, 2);
    assert(seq![b].drop_last() =~= Seq::<u8>::empty());
}

proof fn lemma_csi_ends(s: Screen, cmd: u8)
    requires
        s.state == ParseState::Csi,
        !is_param(cmd),
    ensures
        fed(s, seq![cmd]) == (Screen {
            state: ParseState::Normal,
            ..csi(s, param_list(s.params), cmd)
        }),
{
    lemma_one_byte(s, cmd);
}

/// The screen behind `ESC [` and its parameters.
spec fn at_final(s: Screen, params: Seq<u8>) -> Screen {
    Screen { state: ParseState::Csi, params, ..s }
}

proof fn lemma_csi_fed(s: Screen, params: Seq<u8>, cmd: u8)
    requires
        s.state == ParseState::Normal,
        forall|i: int| 0 <= i < params.len() ==> is_param(#[trigger] params[i]),
        !is_param(cmd),
    ensures
        after_csi(s, params, cmd) == (Screen {
            state: ParseState::Normal,
            ..csi(at_final(s, params), param_list(params), cmd)
        }),
{
    let open = seq![0x1Bu8, 0x5Bu8];
    lemma_csi_opens(s);
    law_feed_in_pieces(s, open, params);
    law_feed_in_pieces(s, open + params, seq![cmd]);
    lemma_params_fed(fed(s, open), params);
    assert(Seq::<u8>::empty() + params =~= params);
    assert(fed(s, open + params) == at_final(s, params));
    lemma_csi_ends(at_final(s, params), cmd);
}

proof fn lemma_no_separator(p: Seq<u8>, sep: u8)
    requires
        forall|i: int| 0 <= i < p.len() ==> #[trigger] p[i] != sep,
    ensures
        text::split_on(p, sep) == seq![p],
    decreases p.len(),
{
    if p.len() > 0 {
        lemma_no_separator(p.drop_last(), sep);
        assert(p.drop_last().push(p.last()) =~= p);
        assert(p[p.len() - 1] != sep);
        assert(text::split_on(p, sep) =~= seq![p]);
    } else {
        assert(p =~= Seq::<u8>::empty());
    }
}

proof fn lemma_first_piece(a: Seq<u8>, b: Seq<u8>, sep: u8)
    requires
        forall|i: int| 0 <= i < a.len() ==> #[trigger] a[i] != sep,
    ensures
        text::split_on(a + seq![sep] + b, sep) == seq![a] + text::split_on(b, sep),
        text::split_on(b, sep).len() > 0,
    decreases b.len(),
{
    let all = a + seq![sep] + b;
    if b.len() == 0 {
        lemma_no_separator(a, sep);
        assert(all.drop_last() =~= a);
        assert(all.last() == sep);
        assert(text::split_on(all, sep) =~= seq![a] + text::split_on(b, sep));
    } else {
        lemma_first_piece(a, b.drop_last(), sep);
        assert(all.drop_last() =~= a + seq![sep] + b.drop_last());
        assert(all.last() == b.last());
        let head = text::split_on(b.drop_last(), sep);
        let whole = seq![a] + head;
        assert(whole.last() == head.last());
        assert(whole.drop_last() =~= seq![a] + head.drop_last());
        assert(text::split_on(all, sep) =~= seq![a] + text::split_on(b, sep));
    }
}

proof fn lemma_nothing_left_out(p: Seq<u8>)
    requires
        forall|i: int| 0 <= i < p.len() ==> #[trigger] p[i] != 0x3F,
    ensures
        p.filter(|b: u8| b as char != '?') == p,
    decreases p.len(),
{
    reveal(Seq::filter);
    if p.len() > 0 {
        assert forall|i: int| 0 <= i < p.len() - 1 implies #[trigger] p.drop_last()[i] != 0x3F by {
            assert(p[i] != 0x3F);
        }
        lemma_nothing_left_out(p.drop_last());
        assert(p[p.len() - 1] != 0x3F);
        assert(p.drop_last().push(p.last()) =~= p);
    }
}

proof fn lemma_same_number(d: Seq<u8>)
    requires
        all_digits(d),
    ensures
        digits_number(d) == decimal_value(d),
    decreases d.len(),
{
    if d.len() > 0 {
        assert forall|i: int| 0 <= i < d.len() - 1 implies 0x30 <= #[trigger] d.drop_last()[i]
            <= 0x39 by {
            assert(d[i] >= 0x30);
        }
        lemma_same_number(d.drop_last());
        assert(d[d.len() - 1] >= 0x30);
    }
}

/// What the parameters of one number are read as.
proof fn lemma_gives(params: Seq<u8>, p: int)
    requires
        gives(params, p),
    ensures
        0 <= p <= 65535,
        param_value(params) == p,
        params.len() > 0 ==> param_list(params) == seq![p as u16],
        params.len() == 0 ==> param_list(params) == Seq::<u16>::empty() && p == 0,
        param(param_list(params), 0) == p,
        param(param_list(params), 1) == 0,
        forall|i: int| 0 <= i < params.len() ==> is_param(#[trigger] params[i]),
{
    lemma_same_number(params);
    if params.len() > 0 {
        lemma_nothing_left_out(params);
        lemma_no_separator(params, ';' as u8);
        assert(param_list(params) =~= seq![p as u16]);
    }
}

/// Whether bytes are numbers between semicolons.
pub open spec fn numbers(b: Seq<u8>) -> bool {
    forall|i: int| 0 <= i < b.len() ==> 0x30 <= #[trigger] b[i] <= 0x39 || b[i] == 0x3B
}

/// The first number of several, and the rest.
proof fn lemma_number_first(a: Seq<u8>, b: Seq<u8>, p: int)
    requires
        gives(a, p),
        numbers(b),
    ensures
        param_list(a + seq![0x3Bu8] + b) == seq![p as u16] + if b.len() == 0 {
            seq![0u16]
        } else {
            param_list(b)
        },
        forall|i: int|
            0 <= i < (a + seq![0x3Bu8] + b).len() ==> is_param(
                #[trigger] (a + seq![0x3Bu8] + b)[i],
            ),
        forall|i: int| 0 <= i < b.len() ==> is_param(#[trigger] b[i]),
{
    let all = a + seq![0x3Bu8] + b;
    lemma_gives(a, p);
    assert forall|i: int| 0 <= i < all.len() implies is_param(#[trigger] all[i]) && all[i]
        != 0x3F by {
        if i < a.len() {
            assert(0x30 <= a[i] <= 0x39);
        } else if i > a.len() {
            assert(0x30 <= b[i - a.len() - 1] <= 0x39 || b[i - a.len() - 1] == 0x3B);
        }
    }
    assert forall|i: int| 0 <= i < b.len() implies is_param(#[trigger] b[i]) && b[i] != 0x3F by {
        assert(0x30 <= b[i] <= 0x39 || b[i] == 0x3B);
    }
    lemma_nothing_left_out(all);
    lemma_nothing_left_out(b);
    lemma_first_piece(a, b, 0x3B);
    let value = |q: Seq<u8>| param_value(q);
    let rest = text::split_on(b, 0x3Bu8);
    assert((seq![a] + rest).map_values(value) =~= seq![param_value(a)] + rest.map_values(value));
    if b.len() == 0 {
        assert(rest =~= seq![Seq::<u8>::empty()]);
        assert(rest.map_values(value) =~= seq![0u16]);
    }
    assert(';' as u8 == 0x3Bu8);
}

/// Delete line: the rows above the cursor stay; from the cursor's row on, each row is what stood
/// `n` rows below it, and empty past the last row.
pub proof fn law_delete_lines(s: Screen, params: Seq<u8>, p: int, r: int, c: int)
    requires
        s.wf(),
        s.state == ParseState::Normal,
        gives(params, p),
        0 <= r < 18,
        0 <= c < 53,
    ensures
        ({
            let n = if p == 0 {
                1
            } else {
                p
            };
            let t = after_csi(s, params, 0x4D);
            &&& only_cells(s, t)
            &&& r < s.row ==> t.cells[r][c] == s.cells[r][c]
            &&& s.row <= r && r + n < 18 ==> t.cells[r][c] == s.cells[r + n][c]
            &&& s.row <= r && r + n >= 18 ==> is_empty_cell(t.cells[r][c])
        }),
{
    lemma_gives(params, p);
    lemma_csi_fed(s, params, 0x4D);
}

/// Insert line: the rows above the cursor stay; `n` empty rows come in at the cursor's row, and
/// each row below them is what stood `n` rows above it.
pub proof fn law_insert_lines(s: Screen, params: Seq<u8>, p: int, r: int, c: int)
    requires
        s.wf(),
        s.state == ParseState::Normal,
        gives(params, p),
        0 <= r < 18,
        0 <= c < 53,
    ensures
        ({
            let n = if p == 0 {
                1
            } else {
                p
            };
            let t = after_csi(s, params, 0x4C);
            &&& only_cells(s, t)
            &&& r < s.row ==> t.cells[r][c] == s.cells[r][c]
            &&& s.row <= r < s.row + n ==> is_empty_cell(t.cells[r][c])
            &&& s.row + n <= r ==> t.cells[r][c] == s.cells[r - n][c]
        }),
{
    lemma_gives(params, p);
    lemma_csi_fed(s, params, 0x4C);
}

/// Scroll up: each row is what stood `n` rows below it, wherever the cursor stands; the last ones
/// are empty.
pub proof fn law_scroll_up(s: Screen, params: Seq<u8>, p: int, r: int, c: int)
    requires
        s.wf(),
        s.state == ParseState::Normal,
        gives(params, p),
        0 <= r < 18,
        0 <= c < 53,
    ensures
        ({
            let n = if p == 0 {
                1
            } else {
                p
            };
            let t = after_csi(s, params, 0x53);
            &&& only_cells(s, t)
            &&& r + n < 18 ==> t.cells[r][c] == s.cells[r + n][c]
            &&& r + n >= 18 ==> is_empty_cell(t.cells[r][c])
        }),
{
    lemma_gives(params, p);
    lemma_csi_fed(s, params, 0x53);
}

/// Scroll down: each row is what stood `n` rows above it, wherever the cursor stands; the first
/// ones are empty.
pub proof fn law_scroll_down(s: Screen, params: Seq<u8>, p: int, r: int, c: int)
    requires
        s.wf(),
        s.state == ParseState::Normal,
        gives(params, p),
        0 <= r < 18,
        0 <= c < 53,
    ensures
        ({
            let n = if p == 0 {
                1
            } else {
                p
            };
            let t = after_csi(s, params, 0x54);
            &&& only_cells(s, t)
            &&& r < n ==> is_empty_cell(t.cells[r][c])
            &&& n <= r ==> t.cells[r][c] == s.cells[r - n][c]
        }),
{
    lemma_gives(params, p);
    lemma_csi_fed(s, params, 0x54);
}

/// Delete character: other rows stay, and so does the row before the cursor; from the cursor on,
/// each cell is what stood `n` columns to its right, and empty past the last column.
pub proof fn law_delete_chars(s: Screen, params: Seq<u8>, p: int, r: int, c: int)
    requires
        s.wf(),
        s.state == ParseState::Normal,
        gives(params, p),
        0 <= r < 18,
        0 <= c < 53,
    ensures
        ({
            let n = if p == 0 {
                1
            } else {
                p
            };
            let t = after_csi(s, params, 0x50);
            &&& only_cells(s, t)
            &&& r != s.row || c < s.col ==> t.cells[r][c] == s.cells[r][c]
            &&& r == s.row && s.col <= c && c + n < 53 ==> t.cells[r][c] == s.cells[r][c + n]
            &&& r == s.row && s.col <= c && c + n >= 53 ==> is_empty_cell(t.cells[r][c])
        }),
{
    lemma_gives(params, p);
    lemma_csi_fed(s, params, 0x50);
}

/// Insert character: other rows stay, and so does the row before the cursor; `n` empty cells come
/// in at the cursor, and each cell behind them is what stood `n` columns to its left.
pub proof fn law_insert_chars(s: Screen, params: Seq<u8>, p: int, r: int, c: int)
    requires
        s.wf(),
        s.state == ParseState::Normal,
        gives(params, p),
        0 <= r < 18,
        0 <= c < 53,
    ensures
        ({
            let n = if p == 0 {
                1
            } else {
                p
            };
            let t = after_csi(s, params, 0x40);
            &&& only_cells(s, t)
            &&& r != s.row || c < s.col ==> t.cells[r][c] == s.cells[r][c]
            &&& r == s.row && s.col <= c < s.col + n ==> is_empty_cell(t.cells[r][c])
            &&& r == s.row && s.col + n <= c ==> t.cells[r][c] == s.cells[r][c - n]
        }),
{
    lemma_gives(params, p);
    lemma_csi_fed(s, params, 0x40);
}

/// Erase character: `n` cells from the cursor on become empty; every other cell stays.
pub proof fn law_erase_chars(s: Screen, params: Seq<u8>, p: int, r: int, c: int)
    requires
        s.wf(),
        s.state == ParseState::Normal,
        gives(params, p),
        0 <= r < 18,
        0 <= c < 53,
    ensures
        ({
            let n = if p == 0 {
                1
            } else {
                p
            };
            let t = after_csi(s, params, 0x58);
            &&& only_cells(s, t)
            &&& r == s.row && s.col <= c < s.col + n ==> is_empty_cell(t.cells[r][c])
            &&& r != s.row || c < s.col || c >= s.col + n ==> t.cells[r][c] == s.cells[r][c]
        }),
{
    lemma_gives(params, p);
    lemma_csi_fed(s, params, 0x58);
}

/// Erase in display: 0 empties the cells from the cursor to the end, 1 those up to the cursor and
/// under it, 2 and 3 all of them, and another number none.
pub proof fn law_erase_in_display(s: Screen, params: Seq<u8>, p: int, r: int, c: int)
    requires
        s.wf(),
        s.state == ParseState::Normal,
        gives(params, p),
        0 <= r < 18,
        0 <= c < 53,
    ensures
        ({
            let t = after_csi(s, params, 0x4A);
            let before = r < s.row || (r == s.row && c < s.col);
            let under = r == s.row && c == s.col;
            let erased = (p == 0 && !before) || (p == 1 && (before || under)) || p == 2 || p == 3;
            &&& only_cells(s, t)
            &&& erased ==> is_empty_cell(t.cells[r][c])
            &&& !erased ==> t.cells[r][c] == s.cells[r][c]
        }),
{
    lemma_gives(params, p);
    lemma_csi_fed(s, params, 0x4A);
}

/// Erase in line: 0 empties the cells of the cursor's row from the cursor on, 1 those up to the
/// cursor and under it, 2 all of them, and another number none. Other rows stay.
pub proof fn law_erase_in_line(s: Screen, params: Seq<u8>, p: int, r: int, c: int)
    requires
        s.wf(),
        s.state == ParseState::Normal,
        gives(params, p),
        0 <= r < 18,
        0 <= c < 53,
    ensures
        ({
            let t = after_csi(s, params, 0x4B);
            let erased = r == s.row && ((p == 0 && c >= s.col) || (p == 1 && c <= s.col) || p == 2);
            &&& only_cells(s, t)
            &&& erased ==> is_empty_cell(t.cells[r][c])
            &&& !erased ==> t.cells[r][c] == s.cells[r][c]
        }),
{
    lemma_gives(params, p);
    lemma_csi_fed(s, params, 0x4B);
}

/// Whether a coordinate moved by `by`, as far as the edges let it.
pub open spec fn moved(from: int, to: int, by: int, last: int) -> bool {
    &&& 0 <= from + by <= last ==> to == from + by
    &&& from + by < 0 ==> to == 0
    &&& from + by > last ==> to == last
}

/// The four ways to move the cursor: up, down, right and left by `n`, no further than the edge.
/// The other coordinate stays, and so do the cells.
pub proof fn law_cursor_moves(s: Screen, params: Seq<u8>, p: int)
    requires
        s.wf(),
        s.state == ParseState::Normal,
        gives(params, p),
    ensures
        ({
            let n = if p == 0 {
                1
            } else {
                p
            };
            let up = after_csi(s, params, 0x41);
            let down = after_csi(s, params, 0x42);
            let right = after_csi(s, params, 0x43);
            let left = after_csi(s, params, 0x44);
            &&& only_cursor(s, up) && moved(s.row, up.row, -n, 17) && up.col == s.col
            &&& only_cursor(s, down) && moved(s.row, down.row, n, 17) && down.col == s.col
            &&& only_cursor(s, right) && right.row == s.row && moved(s.col, right.col, n, 52)
            &&& only_cursor(s, left) && left.row == s.row && left.col == if s.col >= n {
                s.col - n
            } else {
                0
            }
        }),
{
    lemma_gives(params, p);
    lemma_csi_fed(s, params, 0x41);
    lemma_csi_fed(s, params, 0x42);
    lemma_csi_fed(s, params, 0x43);
    lemma_csi_fed(s, params, 0x44);
}

/// A column or a row is given by its number from 1 on; 0 and nothing mean 1, and a number past the
/// edge means the last one. The other coordinate stays, and so do the cells.
pub proof fn law_cursor_to_column_or_row(s: Screen, params: Seq<u8>, p: int)
    requires
        s.wf(),
        s.state == ParseState::Normal,
        gives(params, p),
    ensures
        ({
            let n = if p == 0 {
                1
            } else {
                p
            };
            let column = after_csi(s, params, 0x47);
            let row = after_csi(s, params, 0x64);
            &&& only_cursor(s, column) && column.row == s.row
            &&& only_cursor(s, row) && row.col == s.col
            &&& n <= 53 ==> column.col == n - 1
            &&& n > 53 ==> column.col == 52
            &&& n <= 18 ==> row.row == n - 1
            &&& n > 18 ==> row.row == 17
        }),
{
    lemma_gives(params, p);
    lemma_csi_fed(s, params, 0x47);
    lemma_csi_fed(s, params, 0x64);
}

/// Whether the cursor stands at row `p` and column `q`, both counted from 1: 0 means 1, and a
/// number past the edge means the last one.
pub open spec fn stands_at(t: Screen, p: int, q: int) -> bool {
    &&& t.row == if p <= 1 {
        0
    } else if p <= 18 {
        p - 1
    } else {
        17
    }
    &&& t.col == if q <= 1 {
        0
    } else if q <= 53 {
        q - 1
    } else {
        52
    }
}

/// Cursor position: row and column, in this order, counted from 1, by either of its two letters.
pub proof fn law_cursor_position(s: Screen, a: Seq<u8>, b: Seq<u8>, p: int, q: int)
    requires
        s.wf(),
        s.state == ParseState::Normal,
        gives(a, p),
        gives(b, q),
    ensures
        ({
            let t = after_csi(s, a + seq![0x3Bu8] + b, 0x48);
            let u = after_csi(s, a + seq![0x3Bu8] + b, 0x66);
            &&& only_cursor(s, t) && stands_at(t, p, q)
            &&& only_cursor(s, u) && stands_at(u, p, q)
        }),
{
    let all = a + seq![0x3Bu8] + b;
    lemma_gives(a, p);
    lemma_gives(b, q);
    lemma_number_first(a, b, p);
    assert(param(param_list(all), 0) == p);
    assert(param(param_list(all), 1) == q);
    lemma_csi_fed(s, all, 0x48);
    lemma_csi_fed(s, all, 0x66);
}

/// Cursor position with one number or none: the column is the first.
pub proof fn law_cursor_position_row_only(s: Screen, a: Seq<u8>, p: int)
    requires
        s.wf(),
        s.state == ParseState::Normal,
        gives(a, p),
    ensures
        ({
            let t = after_csi(s, a, 0x48);
            let u = after_csi(s, a, 0x66);
            &&& only_cursor(s, t) && stands_at(t, p, 1)
            &&& only_cursor(s, u) && stands_at(u, p, 1)
        }),
{
    lemma_gives(a, p);
    lemma_csi_fed(s, a, 0x48);
    lemma_csi_fed(s, a, 0x66);
}

/// Whether a final byte means something here.
pub open spec fn means_something(cmd: u8) -> bool {
    ||| 0x40 <= cmd <= 0x44 || cmd == 0x47 || cmd == 0x48 || 0x4A <= cmd <= 0x4D
    ||| cmd == 0x50 || cmd == 0x53 || cmd == 0x54 || cmd == 0x58
    ||| cmd == 0x64 || cmd == 0x66 || cmd == 0x6D || cmd == 0x73 || cmd == 0x75
}

/// A sequence that means nothing here changes nothing, and the text behind it is plain again.
pub proof fn law_unknown_sequence(s: Screen, params: Seq<u8>, cmd: u8)
    requires
        s.state == ParseState::Normal,
        forall|i: int| 0 <= i < params.len() ==> is_param(#[trigger] params[i]),
        !is_param(cmd),
        !means_something(cmd),
    ensures
        ({
            let t = after_csi(s, params, cmd);
            &&& t.cells == s.cells
            &&& same_place(s, t)
            &&& same_pen(s, t)
            &&& t.state == ParseState::Normal
            &&& t.dirty == s.dirty
        }),
{
    lemma_csi_fed(s, params, cmd);
}

proof fn lemma_question_mark(a: Seq<u8>, b: Seq<u8>)
    ensures
        (a + seq![0x3Fu8] + b).filter(|b: u8| b as char != '?') == (a + b).filter(
            |b: u8| b as char != '?',
        ),
    decreases b.len(),
{
    reveal(Seq::filter);
    let x = a + seq![0x3Fu8] + b;
    if b.len() == 0 {
        assert(x.drop_last() =~= a);
        assert(x.last() == 0x3F);
        assert(a + b =~= a);
    } else {
        lemma_question_mark(a, b.drop_last());
        assert(x.drop_last() =~= a + seq![0x3Fu8] + b.drop_last());
        assert((a + b).drop_last() =~= a + b.drop_last());
        assert(x.last() == b.last() && (a + b).last() == b.last());
    }
}

/// What a sequence does depends on what its parameters are read as, not on how they were written.
#[verifier::rlimit(60)]
proof fn lemma_csi_by_values(s: Screen, params: Seq<u8>, ps: Seq<u16>, cmd: u8)
    ensures
        csi(Screen { params, ..s }, ps, cmd) == (Screen { params, ..csi(s, ps, cmd) }),
{
    let t = Screen { params, ..s };
    assert(erase_display(t, param(ps, 0)) == erase_display(s, param(ps, 0)));
    assert(erase_line(t, param(ps, 0)) == erase_line(s, param(ps, 0)));
}

/// A question mark among the parameters makes no difference.
pub proof fn law_question_mark_is_ignored(s: Screen, a: Seq<u8>, b: Seq<u8>, cmd: u8)
    requires
        s.state == ParseState::Normal,
        forall|i: int| 0 <= i < (a + b).len() ==> is_param(#[trigger] (a + b)[i]),
        (a + b).len() > 0,
        !is_param(cmd),
    ensures
        ({
            let t = after_csi(s, a + seq![0x3Fu8] + b, cmd);
            let u = after_csi(s, a + b, cmd);
            t == (Screen { params: t.params, ..u })
        }),
{
    let x = a + seq![0x3Fu8] + b;
    assert forall|i: int| 0 <= i < x.len() implies is_param(#[trigger] x[i]) by {
        if i < a.len() {
            assert(is_param((a + b)[i]));
        } else if i > a.len() {
            assert(is_param((a + b)[i - 1]));
        }
    }
    lemma_question_mark(a, b);
    assert(param_list(x) == param_list(a + b));
    lemma_csi_fed(s, x, cmd);
    lemma_csi_fed(s, a + b, cmd);
    lemma_csi_by_values(at_final(s, a + b), x, param_list(x), cmd);
    assert(at_final(s, x) == Screen { params: x, ..at_final(s, a + b) });
}

/// Whether a rendition changed the colours and the weight at most.
pub open spec fn only_pen(s: Screen, t: Screen) -> bool {
    &&& s.cells == t.cells
    &&& same_place(s, t)
    &&& t.state == ParseState::Normal
    &&& t.dirty == s.dirty
}

/// One attribute: 0 or nothing is white on black in normal weight; 1 and 22 set and clear bold and
/// keep the colours; 7 and 27 exchange the colours; 30 to 37 and 90 to 97 set the colour of the
/// text, 40 to 47 and 100 to 107 that of the background, the first of these brighter in bold; 39
/// and 49 bring back white text and a black background. Anything else changes nothing.
pub proof fn law_attribute(s: Screen, params: Seq<u8>, p: int)
    requires
        s.state == ParseState::Normal,
        gives(params, p),
    ensures
        ({
            let t = after_csi(s, params, 0x6D);
            let white = Rgb565 { r: 21, g: 42, b: 21 };
            let black = Rgb565 { r: 0, g: 0, b: 0 };
            &&& only_pen(s, t)
            &&& p == 0 ==> t.fg == white && t.bg == black && !t.bold
            &&& p == 1 ==> t.fg == s.fg && t.bg == s.bg && t.bold
            &&& p == 22 ==> t.fg == s.fg && t.bg == s.bg && !t.bold
            &&& p == 7 || p == 27 ==> t.fg == s.bg && t.bg == s.fg && t.bold == s.bold
            &&& 30 <= p <= 37 && !s.bold ==> t.fg == color::ansi(p - 30) && t.bg == s.bg && !t.bold
            &&& 30 <= p <= 37 && s.bold ==> t.fg == color::ansi(p - 22) && t.bg == s.bg && t.bold
            &&& p == 39 ==> t.fg == white && t.bg == s.bg && t.bold == s.bold
            &&& 40 <= p <= 47 ==> t.fg == s.fg && t.bg == color::ansi(p - 40) && t.bold == s.bold
            &&& p == 49 ==> t.fg == s.fg && t.bg == black && t.bold == s.bold
            &&& 90 <= p <= 97 ==> t.fg == color::ansi(p - 82) && t.bg == s.bg && t.bold == s.bold
            &&& 100 <= p <= 107 ==> t.fg == s.fg && t.bg == color::ansi(p - 92) && t.bold == s.bold
            &&& 2 <= p <= 6 || 8 <= p <= 21 || 23 <= p <= 26 || p == 28 || p == 29 || p == 38 || p
                == 48 || 50 <= p <= 89 || 98 <= p <= 99 || p >= 108 ==> same_pen(s, t)
        }),
{
    lemma_gives(params, p);
    lemma_csi_fed(s, params, 0x6D);
    reveal_with_fuel(attributes, 2);
}

/// What attributes do does not depend on how many came before them.
proof fn lemma_attributes_shift(pen: Pen, x: u16, ps: Seq<u16>, i: int)
    requires
        0 <= i <= ps.len(),
    ensures
        attributes(pen, seq![x] + ps, i + 1) == attributes(pen, ps, i),
    decreases ps.len() - i,
{
    let all = seq![x] + ps;
    if i < ps.len() {
        assert(all[i + 1] == ps[i]);
        if i + 1 < ps.len() {
            assert(all[i + 2] == ps[i + 1]);
        }
        if i + 2 < ps.len() {
            assert(all[i + 3] == ps[i + 2]);
        }
        if (ps[i] == 38 || ps[i] == 48) && i + 2 < ps.len() && ps[i + 1] == 5 {
            let color = color::palette(ps[i + 2] as int);
            let next = if ps[i] == 38 {
                Pen { fg: color, ..pen }
            } else {
                Pen { bg: color, ..pen }
            };
            lemma_attributes_shift(next, x, ps, i + 3);
        } else {
            lemma_attributes_shift(attribute(pen, ps[i] as int), x, ps, i + 1);
        }
    }
}

/// Attributes between semicolons are the same as one sequence for each, in the same order.
pub proof fn law_attributes_one_by_one(s: Screen, a: Seq<u8>, b: Seq<u8>, p: int)
    requires
        s.state == ParseState::Normal,
        gives(a, p),
        p != 38,
        p != 48,
        numbers(b),
        b.len() > 0,
    ensures
        ({
            let at_once = after_csi(s, a + seq![0x3Bu8] + b, 0x6D);
            let in_turn = after_csi(after_csi(s, a, 0x6D), b, 0x6D);
            &&& only_pen(s, at_once)
            &&& same_pen(at_once, in_turn)
        }),
{
    let all = a + seq![0x3Bu8] + b;
    lemma_number_first(a, b, p);
    lemma_gives(a, p);
    lemma_csi_fed(s, all, 0x6D);
    lemma_csi_fed(s, a, 0x6D);
    let mid = after_csi(s, a, 0x6D);
    lemma_csi_fed(mid, b, 0x6D);
    let pen = Pen { fg: s.fg, bg: s.bg, bold: s.bold };
    let first = attribute(pen, p);
    assert(render(pen, param_list(a)) == first) by {
        reveal_with_fuel(attributes, 2);
    }
    assert(mid.fg == first.fg && mid.bg == first.bg && mid.bold == first.bold);
    let ps = param_list(b);
    lemma_attributes_shift(first, p as u16, ps, 0);
    let list = param_list(all);
    assert(list == seq![p as u16] + ps);
    assert(list[0] == p);
    assert(attributes(pen, list, 0) == attributes(first, list, 1));
    assert(ps.len() > 0) by {
        lemma_list_not_empty(b);
    }
}

proof fn lemma_list_not_empty(b: Seq<u8>)
    requires
        b.len() > 0,
    ensures
        param_list(b).len() > 0,
{
    lemma_pieces(b.filter(|b: u8| b as char != '?'), ';' as u8);
}

proof fn lemma_pieces(b: Seq<u8>, sep: u8)
    ensures
        text::split_on(b, sep).len() > 0,
    decreases b.len(),
{
    if b.len() > 0 {
        lemma_pieces(b.drop_last(), sep);
    }
}

/// `38;5;n` gives text entry `n` of the palette, and `48;5;n` the background; the other colour and
/// the weight stay, and what follows is read as attributes again.
pub proof fn law_palette_attribute(s: Screen, n: Seq<u8>, p: int, rest: Seq<u8>)
    requires
        s.state == ParseState::Normal,
        gives(n, p),
        numbers(rest),
    ensures
        ({
            let text = seq![0x33u8, 0x38u8, 0x3Bu8, 0x35u8, 0x3Bu8] + n;
            let back = seq![0x34u8, 0x38u8, 0x3Bu8, 0x35u8, 0x3Bu8] + n;
            let t = after_csi(s, text, 0x6D);
            let u = after_csi(s, back, 0x6D);
            &&& only_pen(s, t) && t.fg == color::palette(p) && t.bg == s.bg && t.bold == s.bold
            &&& only_pen(s, u) && u.fg == s.fg && u.bg == color::palette(p) && u.bold == s.bold
            &&& rest.len() > 0 ==> same_pen(
                after_csi(s, text + seq![0x3Bu8] + rest, 0x6D),
                after_csi(t, rest, 0x6D),
            )
            &&& rest.len() > 0 ==> same_pen(
                after_csi(s, back + seq![0x3Bu8] + rest, 0x6D),
                after_csi(u, rest, 0x6D),
            )
        }),
{
    lemma_palette_attribute(s, 38, n, p, rest);
    lemma_palette_attribute(s, 48, n, p, rest);
}

/// The digits of 38 or 48.
spec fn which_digits(which: u16) -> Seq<u8> {
    if which == 38 {
        seq![0x33u8, 0x38u8]
    } else {
        seq![0x34u8, 0x38u8]
    }
}

proof fn lemma_small_numbers(which: u16)
    requires
        which == 38 || which == 48,
    ensures
        gives(which_digits(which), which as int),
        gives(seq![0x35u8], 5),
{
    reveal_with_fuel(decimal_value, 3);
    let d = which_digits(which);
    assert(d.drop_last() =~= seq![d[0]]);
    assert(seq![d[0]].drop_last() =~= Seq::<u8>::empty());
    assert(seq![0x35u8].drop_last() =~= Seq::<u8>::empty());
}

/// `38;5;n` or `48;5;n`.
spec fn palette_bytes(which: u16, n: Seq<u8>) -> Seq<u8> {
    if which == 38 {
        seq![0x33u8, 0x38u8, 0x3Bu8, 0x35u8, 0x3Bu8] + n
    } else {
        seq![0x34u8, 0x38u8, 0x3Bu8, 0x35u8, 0x3Bu8] + n
    }
}

proof fn lemma_palette_list(which: u16, n: Seq<u8>, p: int)
    requires
        gives(n, p),
        which == 38 || which == 48,
    ensures
        param_list(palette_bytes(which, n)) == seq![which, 5u16, p as u16],
        forall|i: int|
            0 <= i < palette_bytes(which, n).len() ==> is_param(
                #[trigger] palette_bytes(which, n)[i],
            ),
{
    let w = which_digits(which);
    let five = seq![0x35u8];
    let semi = seq![0x3Bu8];
    lemma_small_numbers(which);
    lemma_gives(n, p);
    lemma_number_first(five, n, 5);
    let tail = five + semi + n;
    assert(numbers(tail));
    lemma_number_first(w, tail, which as int);
    assert(w + semi + tail =~= palette_bytes(which, n));
    assert(param_list(palette_bytes(which, n)) =~= seq![which, 5u16, p as u16]);
}

proof fn lemma_palette_list_rest(which: u16, n: Seq<u8>, p: int, rest: Seq<u8>)
    requires
        gives(n, p),
        which == 38 || which == 48,
        numbers(rest),
        rest.len() > 0,
    ensures
        ({
            let all = palette_bytes(which, n) + seq![0x3Bu8] + rest;
            &&& param_list(all) == seq![which] + (seq![5u16] + (seq![p as u16] + param_list(rest)))
            &&& forall|i: int| 0 <= i < all.len() ==> is_param(#[trigger] all[i])
        }),
{
    let w = which_digits(which);
    let five = seq![0x35u8];
    let semi = seq![0x3Bu8];
    lemma_small_numbers(which);
    lemma_number_first(n, rest, p);
    let b1 = n + semi + rest;
    assert(numbers(b1));
    lemma_number_first(five, b1, 5);
    let b2 = five + semi + b1;
    assert(numbers(b2));
    lemma_number_first(w, b2, which as int);
    assert(w + semi + b2 =~= palette_bytes(which, n) + semi + rest);
}

/// What a rendition leaves behind.
proof fn lemma_rendered(s: Screen, params: Seq<u8>)
    requires
        s.state == ParseState::Normal,
        forall|i: int| 0 <= i < params.len() ==> is_param(#[trigger] params[i]),
    ensures
        ({
            let t = after_csi(s, params, 0x6D);
            &&& only_pen(s, t)
            &&& (Pen { fg: t.fg, bg: t.bg, bold: t.bold }) == render(
                Pen { fg: s.fg, bg: s.bg, bold: s.bold },
                param_list(params),
            )
        }),
{
    lemma_csi_fed(s, params, 0x6D);
}

/// The pen with a colour of the palette.
spec fn with_palette(pen: Pen, which: u16, p: int) -> Pen {
    if which == 38 {
        Pen { fg: color::palette(p), ..pen }
    } else {
        Pen { bg: color::palette(p), ..pen }
    }
}

proof fn lemma_palette_pen(pen: Pen, which: u16, p: int, ps: Seq<u16>)
    requires
        which == 38 || which == 48,
        0 <= p <= 65535,
        ps.len() > 0,
    ensures
        render(pen, seq![which, 5u16, p as u16]) == with_palette(pen, which, p),
        render(pen, seq![which] + (seq![5u16] + (seq![p as u16] + ps))) == render(
            with_palette(pen, which, p),
            ps,
        ),
{
    let done = with_palette(pen, which, p);
    assert(render(pen, seq![which, 5u16, p as u16]) == done) by {
        reveal_with_fuel(attributes, 2);
    }
    let l1 = seq![p as u16] + ps;
    let l2 = seq![5u16] + l1;
    let long = seq![which] + l2;
    lemma_attributes_shift(done, p as u16, ps, 0);
    lemma_attributes_shift(done, 5, l1, 1);
    lemma_attributes_shift(done, which, l2, 2);
    assert(long[0] == which && long[1] == 5 && long[2] == p);
    assert(attributes(pen, long, 0) == attributes(done, long, 3));
}

proof fn lemma_palette_attribute(s: Screen, which: u16, n: Seq<u8>, p: int, rest: Seq<u8>)
    requires
        s.state == ParseState::Normal,
        gives(n, p),
        numbers(rest),
        which == 38 || which == 48,
    ensures
        ({
            let begin = palette_bytes(which, n);
            let t = after_csi(s, begin, 0x6D);
            &&& only_pen(s, t)
            &&& t.bold == s.bold
            &&& which == 38 ==> t.fg == color::palette(p) && t.bg == s.bg
            &&& which == 48 ==> t.bg == color::palette(p) && t.fg == s.fg
            &&& rest.len() > 0 ==> same_pen(
                after_csi(s, begin + seq![0x3Bu8] + rest, 0x6D),
                after_csi(t, rest, 0x6D),
            )
        }),
{
    let begin = palette_bytes(which, n);
    let pen = Pen { fg: s.fg, bg: s.bg, bold: s.bold };
    lemma_palette_list(which, n, p);
    lemma_gives(n, p);
    lemma_rendered(s, begin);
    lemma_palette_pen(pen, which, p, seq![0u16]);
    if rest.len() > 0 {
        let t = after_csi(s, begin, 0x6D);
        lemma_palette_list_rest(which, n, p, rest);
        lemma_list_not_empty(rest);
        lemma_palette_pen(pen, which, p, param_list(rest));
        lemma_rendered(s, begin + seq![0x3Bu8] + rest);
        assert forall|i: int| 0 <= i < rest.len() implies is_param(#[trigger] rest[i]) by {
            assert(0x30 <= rest[i] <= 0x39 || rest[i] == 0x3B);
        }
        lemma_rendered(t, rest);
    }
}

/// A line feed moves the cursor down and keeps its column; on the last row every row moves up one
/// instead and an empty one comes in at the bottom. `ESC D` does the same to cells and cursor.
pub proof fn law_line_feed(s: Screen, r: int, c: int)
    requires
        s.wf(),
        s.state == ParseState::Normal,
        0 <= r < 18,
        0 <= c < 53,
    ensures
        ({
            let t = fed(s, seq![0x0Au8]);
            let u = fed(s, seq![0x1Bu8, 0x44u8]);
            &&& t.col == s.col && same_pen(s, t) && t.dirty && t.state == ParseState::Normal
            &&& s.row < 17 ==> t.row == s.row + 1 && t.cells == s.cells
            &&& s.row == 17 ==> {
                &&& t.row == 17
                &&& r < 17 ==> t.cells[r][c] == s.cells[r + 1][c]
                &&& r == 17 ==> is_empty_cell(t.cells[r][c])
            }
            &&& u.cells == t.cells && u.row == t.row && u.col == t.col
            &&& same_pen(s, u) && u.state == ParseState::Normal
            &&& t.saved_row == s.saved_row && t.saved_col == s.saved_col
            &&& u.saved_row == s.saved_row && u.saved_col == s.saved_col
        }),
{
    lemma_one_byte(s, 0x0A);
    lemma_two_bytes(s, 0x1B, 0x44);
}

/// `ESC M` moves the cursor up and keeps its column; on the first row every row moves down one
/// instead and an empty one comes in at the top.
pub proof fn law_reverse_line_feed(s: Screen, r: int, c: int)
    requires
        s.wf(),
        s.state == ParseState::Normal,
        0 <= r < 18,
        0 <= c < 53,
    ensures
        ({
            let t = fed(s, seq![0x1Bu8, 0x4Du8]);
            &&& t.col == s.col && same_pen(s, t) && t.dirty && t.state == ParseState::Normal
            &&& t.saved_row == s.saved_row && t.saved_col == s.saved_col
            &&& s.row > 0 ==> t.row == s.row - 1 && t.cells == s.cells
            &&& s.row == 0 ==> {
                &&& t.row == 0
                &&& r > 0 ==> t.cells[r][c] == s.cells[r - 1][c]
                &&& r == 0 ==> is_empty_cell(t.cells[r][c])
            }
        }),
{
    lemma_two_bytes(s, 0x1B, 0x4D);
}

/// A carriage return moves the cursor to the first column, a backspace one column to the left;
/// neither changes a cell. Other control characters do nothing.
pub proof fn law_control_characters(s: Screen, b: u8)
    requires
        s.state == ParseState::Normal,
        0 <= s.col,
        b < 0x20,
        b != 0x08,
        b != 0x09,
        b != 0x0A,
        b != 0x0D,
        b != 0x1B,
    ensures
        ({
            let t = fed(s, seq![0x0Du8]);
            let u = fed(s, seq![0x08u8]);
            &&& only_cursor(s, t) && t.row == s.row && t.col == 0
            &&& only_cursor(s, u) && u.row == s.row
            &&& s.col > 0 ==> u.col == s.col - 1
            &&& s.col == 0 ==> u.col == 0
            &&& fed(s, seq![b]) == s
        }),
{
    lemma_one_byte(s, 0x0D);
    lemma_one_byte(s, 0x08);
    lemma_one_byte(s, b);
}

/// A tab writes spaces in the current colours up to the next column that is a multiple of eight,
/// or to the end of the row. Past the end it does nothing.
pub proof fn law_tab(s: Screen, r: int, c: int)
    requires
        s.wf(),
        s.state == ParseState::Normal,
        0 <= r < 18,
        0 <= c < 53,
    ensures
        ({
            let t = fed(s, seq![0x09u8]);
            &&& s.col == 53 ==> t == s
            &&& s.col < 53 ==> {
                &&& s.col < t.col <= s.col + 8
                &&& t.col % 8 == 0 || t.col == 53
                &&& t.row == s.row
                &&& t.saved_row == s.saved_row && t.saved_col == s.saved_col
                &&& same_pen(s, t) && t.dirty && t.state == ParseState::Normal
                &&& r == s.row && s.col <= c < t.col ==> t.cells[r][c] == (Cell {
                    ch: ' ',
                    fg: s.fg,
                    bg: s.bg,
                })
                &&& r != s.row || c < s.col || c >= t.col ==> t.cells[r][c] == s.cells[r][c]
            }
        }),
{
    lemma_one_byte(s, 0x09);
}

/// Text at the end of a full row goes on in the first column of the next one, as after a line
/// feed, and nothing else changes.
pub proof fn law_text_wraps(s: Screen, b: u8, r: int, c: int)
    requires
        s.wf(),
        s.state == ParseState::Normal,
        s.col == 53,
        b >= 0x20,
        0 <= r < 18,
        0 <= c < 53,
    ensures
        ({
            let below = fed(s, seq![0x0Au8]);
            let t = fed(s, seq![b]);
            &&& t.row == below.row && t.col == 1
            &&& t.saved_row == s.saved_row && t.saved_col == s.saved_col
            &&& same_pen(s, t) && t.dirty && t.state == ParseState::Normal
            &&& t.cells[t.row][0] == (Cell { ch: b as char, fg: s.fg, bg: s.bg })
            &&& r != t.row || c != 0 ==> t.cells[r][c] == below.cells[r][c]
        }),
{
    lemma_one_byte(s, 0x0A);
    lemma_one_byte(s, b);
}

/// What is printed keeps colours and saved place, and leaves the text behind it plain.
pub proof fn law_printing_keeps_the_rest(s: Screen, b: u8)
    requires
        s.wf(),
        s.state == ParseState::Normal,
        s.col < 53,
        b >= 0x20,
    ensures
        ({
            let t = fed(s, seq![b]);
            &&& t == step(s, b)
            &&& t.saved_row == s.saved_row && t.saved_col == s.saved_col
            &&& same_pen(s, t) && t.dirty && t.state == ParseState::Normal
        }),
{
    lemma_one_byte(s, b);
}

/// Selecting a character set does nothing, and no letter of it is printed.
pub proof fn law_character_set_is_skipped(s: Screen, open: u8, b: u8)
    requires
        s.state == ParseState::Normal,
        open == 0x28 || open == 0x29 || open == 0x23,
        0x40 <= b <= 0x7E,
        b != 0x5B,
    ensures
        fed(s, seq![0x1Bu8, open, b]) == s,
        fed(s, seq![0x1Bu8, open, 0x30u8]) == (Screen { state: ParseState::Other, ..s }),
{
    lemma_three_bytes(s, 0x1B, open, b);
    lemma_three_bytes(s, 0x1B, open, 0x30);
}

/// An ESC with a byte that means nothing here does nothing.
pub proof fn law_unknown_escape(s: Screen, b: u8)
    requires
        s.state == ParseState::Normal,
        b != 0x5B,
        b != 0x5D,
        b != 0x28,
        b != 0x29,
        b != 0x23,
        b != 0x37,
        b != 0x38,
        b != 0x63,
        b != 0x44,
        b != 0x4D,
    ensures
        fed(s, seq![0x1Bu8, b]) == s,
{
    lemma_two_bytes(s, 0x1B, b);
}

/// A terminal that has received nothing is empty, with both cursors in the top left corner, and
/// writes white on black.
pub proof fn law_fresh(r: int, c: int)
    requires
        0 <= r < 18,
        0 <= c < 53,
    ensures
        ({
            let s = fresh();
            &&& s.wf()
            &&& is_empty_cell(s.cells[r][c])
            &&& s.row == 0 && s.col == 0 && s.saved_row == 0 && s.saved_col == 0
            &&& s.fg == (Rgb565 { r: 21, g: 42, b: 21 })
            &&& s.bg == (Rgb565 { r: 0, g: 0, b: 0 })
            &&& !s.bold && s.dirty && s.state == ParseState::Normal
        }),
{
}

} // verus!
