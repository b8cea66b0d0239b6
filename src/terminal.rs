use vstd::prelude::*;

use crate::cell::{Cell, CellFlags, Color, Style};
use crate::grid::{blank_rows, clear_cols, clear_rows, scrolled, Grid};
use crate::model::{
    min_nat, sub_nat,
    apply_all_view, apply_view, base_color, bright_color, csi_view, erase_display_rows, execute_view,
    line_feed_view, move_count, param_at, params_view, position_param, print_n_view, print_view,
    sgr_code, sgr_codes, sgr_params, tab_spaces, TermView, TAB_WIDTH,
};
use crate::parser::{advance_parser, vte_events, Event};
use crate::text::push_char;

verus! {

/// The cursor, the active style and the grid that a stream of events
/// acts on.
pub struct TerminalState {
    grid: Grid,
    cursor_row: usize,
    cursor_col: usize,
    content_bottom_row: usize,
    current_style: Style,
    saved_cursor: (usize, usize),
}

impl View for TerminalState {
    type V = TermView;

    closed spec fn view(&self) -> TermView {
        TermView {
            rows: self.grid@,
            height: self.grid.spec_height(),
            width: self.grid.spec_width(),
            row: self.cursor_row as nat,
            col: self.cursor_col as nat,
            bottom: self.content_bottom_row as nat,
            style: self.current_style,
            saved_row: self.saved_cursor.0 as nat,
            saved_col: self.saved_cursor.1 as nat,
        }
    }
}

impl TerminalState {
    pub closed spec fn inv(&self) -> bool {
        self.grid.wf()
    }

    pub open spec fn wf(&self) -> bool {
        self.inv() && self@.wf()
    }

    /// A blank terminal of `rows` by `cols` cells, cursor at the origin.
    pub fn new(rows: usize, cols: usize) -> (r: TerminalState)
        requires
            rows > 0,
            cols > 0,
        ensures
            r.wf(),
            r@ == TermView::initial(rows as nat, cols as nat),
    {
        TerminalState {
            grid: Grid::new(rows, cols),
            cursor_row: 0,
            cursor_col: 0,
            content_bottom_row: 0,
            current_style: Style::default(),
            saved_cursor: (0, 0),
        }
    }

    fn update_content_bottom(&mut self)
        ensures
            final(self).content_bottom_row == if old(self).content_bottom_row >= old(self).cursor_row {
                old(self).content_bottom_row
            } else {
                old(self).cursor_row
            },
            final(self).grid == old(self).grid,
            final(self).cursor_row == old(self).cursor_row,
            final(self).cursor_col == old(self).cursor_col,
            final(self).current_style == old(self).current_style,
            final(self).saved_cursor == old(self).saved_cursor,
    {
        if self.cursor_row > self.content_bottom_row {
            self.content_bottom_row = self.cursor_row;
        }
    }

    /// Prints `c` with the active style at the cursor and steps on, wrapping
    /// and scrolling at once; see `print_view`.
    pub fn print(&mut self, c: char)
        requires
            old(self).wf(),
        ensures
            final(self).wf(),
            final(self)@ == print_view(old(self)@, c),
            final(self)@.height == old(self)@.height,
            final(self)@.width == old(self)@.width,
    {
        let cell = Cell::with_style(c, self.current_style);
        self.grid.set_cell(self.cursor_row, self.cursor_col, cell);
        self.cursor_col += 1;
        if self.cursor_col >= self.grid.width() {
            self.cursor_col = 0;
            self.cursor_row += 1;
            if self.cursor_row >= self.grid.height() {
                self.grid.scroll_up(1);
                self.cursor_row = self.grid.height() - 1;
            }
        }
        self.update_content_bottom();
        proof {
            assert(self@ =~= print_view(old(self)@, c));
        }
    }

    fn line_feed(&mut self)
        requires
            old(self).wf(),
        ensures
            final(self).wf(),
            final(self)@ == line_feed_view(old(self)@),
    {
        self.cursor_row += 1;
        if self.cursor_row >= self.grid.height() {
            self.grid.scroll_up(1);
            self.cursor_row = self.grid.height() - 1;
        }
        self.update_content_bottom();
        proof {
            assert(self@ =~= line_feed_view(old(self)@));
        }
    }

    /// Acts on a single-byte control code; see `execute_view`.
    pub fn execute(&mut self, byte: u8)
        requires
            old(self).wf(),
        ensures
            final(self).wf(),
            final(self)@ == execute_view(old(self)@, byte),
            final(self)@.height == old(self)@.height,
            final(self)@.width == old(self)@.width,
    {
        if byte == 0x0a {
            self.line_feed();
        } else if byte == 0x0d {
            self.cursor_col = 0;
            proof {
                assert(self@ =~= execute_view(old(self)@, byte));
            }
        } else if byte == 0x09 {
            let spaces = TAB_WIDTH - self.cursor_col % TAB_WIDTH;
            let mut i: usize = 0;
            while i < spaces
                invariant
                    self.wf(),
                    i <= spaces,
                    spaces == tab_spaces(old(self)@.col),
                    self@.height == old(self)@.height,
                    self@.width == old(self)@.width,
                    self@ == print_n_view(old(self)@, ' ', i as nat),
                decreases spaces - i,
            {
                self.print(' ');
                i += 1;
            }
        } else if byte == 0x08 {
            if self.cursor_col > 0 {
                self.cursor_col -= 1;
            }
            proof {
                assert(self@ =~= execute_view(old(self)@, byte));
            }
        }
    }

    /// Applies the graphic-rendition codes of `params` in order.
    fn select_graphic_rendition(&mut self, params: &Vec<Vec<u16>>)
        requires
            old(self).wf(),
        ensures
            final(self).wf(),
            final(self)@ == (TermView { style: sgr_params(old(self)@.style, params_view(params@)), ..old(self)@ }),
    {
        let ghost ps = params_view(params@);
        let mut i: usize = 0;
        while i < params.len()
            invariant
                self.wf(),
                i <= params@.len(),
                ps == params_view(params@),
                self@ == (TermView { style: sgr_params(old(self)@.style, ps.take(i as int)), ..old(self)@ }),
            decreases params@.len() - i,
        {
            let p = &params[i];
            let ghost before = self.current_style;
            let mut j: usize = 0;
            while j < p.len()
                invariant
                    self.wf(),
                    j <= p@.len(),
                    p@ == ps[i as int],
                    i < ps.len(),
                    self@ == (TermView { style: sgr_codes(before, p@.take(j as int)), ..old(self)@ }),
                decreases p@.len() - j,
            {
                let code = p[j];
                self.current_style = sgr_apply(self.current_style, code);
                proof {
                    assert(p@.take(j as int + 1).drop_last() =~= p@.take(j as int));
                }
                j += 1;
            }
            proof {
                assert(p@.take(j as int) =~= p@);
                assert(ps.take(i as int + 1).drop_last() =~= ps.take(i as int));
            }
            i += 1;
        }
        proof {
            assert(ps.take(i as int) =~= ps);
        }
    }

    /// Acts on a control sequence; see `csi_view`. The intermediate bytes
    /// and the overflow flag are not consulted.
    pub fn csi_dispatch(&mut self, params: &Vec<Vec<u16>>, intermediates: &Vec<u8>, ignore: bool, c: char)
        requires
            old(self).wf(),
        ensures
            final(self).wf(),
            final(self)@ == csi_view(old(self)@, params_view(params@), c),
            final(self)@.height == old(self)@.height,
            final(self)@.width == old(self)@.width,
    {
        let ghost ps = params_view(params@);
        let h = self.grid.height();
        let w = self.grid.width();
        if c == 'A' {
            let n = move_count_of(params);
            self.cursor_row = if self.cursor_row >= n { self.cursor_row - n } else { 0 };
        } else if c == 'B' {
            let n = move_count_of(params);
            self.cursor_row = if n >= h - 1 - self.cursor_row { h - 1 } else { self.cursor_row + n };
            self.update_content_bottom();
        } else if c == 'C' {
            let n = move_count_of(params);
            self.cursor_col = if self.cursor_col >= w - 1 || n >= w - 1 - self.cursor_col {
                w - 1
            } else {
                self.cursor_col + n
            };
        } else if c == 'D' {
            let n = move_count_of(params);
            self.cursor_col = if self.cursor_col >= n { self.cursor_col - n } else { 0 };
        } else if c == 'H' {
            let row = position_of(params, 0);
            let col = position_of(params, 1);
            self.cursor_row = if row < h - 1 { row } else { h - 1 };
            self.cursor_col = if col < w - 1 { col } else { w - 1 };
            self.update_content_bottom();
        } else if c == 'J' {
            let mode = param_of(params, 0);
            if mode == 0 {
                self.grid.clear_cells(self.cursor_row, self.cursor_col, w);
                self.grid.clear_lines(self.cursor_row + 1, h);
                proof {
                    let v = old(self)@;
                    let r = v.row as int;
                    assert(clear_rows(v.rows.update(r, clear_cols(v.rows[r], v.col as int, v.width as int)), r + 1, v.height as int, v.width)
                        =~= erase_display_rows(v, 0));
                }
            } else if mode == 1 {
                self.grid.clear_lines(0, self.cursor_row);
                self.grid.clear_cells(self.cursor_row, 0, through_cursor(self.cursor_col, w));
                proof {
                    let v = old(self)@;
                    let r = v.row as int;
                    assert(clear_cols(v.rows[r], 0, if v.col < w { v.col + 1 as int } else { w as int }) =~= clear_cols(v.rows[r], 0, v.col + 1 as int));
                }
            } else if mode == 2 {
                self.grid.clear_all();
            }
        } else if c == 'K' {
            let mode = param_of(params, 0);
            if mode == 0 {
                self.grid.clear_cells(self.cursor_row, self.cursor_col, w);
            } else if mode == 1 {
                self.grid.clear_cells(self.cursor_row, 0, through_cursor(self.cursor_col, w));
                proof {
                    let v = old(self)@;
                    let r = v.row as int;
                    assert(clear_cols(v.rows[r], 0, if v.col < w { v.col + 1 as int } else { w as int }) =~= clear_cols(v.rows[r], 0, v.col + 1 as int));
                }
            } else if mode == 2 {
                self.grid.clear_line(self.cursor_row);
            }
        } else if c == 'm' {
            self.select_graphic_rendition(params);
        } else if c == 's' {
            self.saved_cursor = (self.cursor_row, self.cursor_col);
        } else if c == 'u' {
            self.cursor_row = self.saved_cursor.0;
            self.cursor_col = self.saved_cursor.1;
            self.update_content_bottom();
        }
        proof {
            assert(self@ =~= csi_view(old(self)@, ps, c));
        }
    }

    /// The cursor as (row, column).
    pub fn cursor(&self) -> (r: (usize, usize))
        ensures
            r.0 == self@.row,
            r.1 == self@.col,
    {
        (self.cursor_row, self.cursor_col)
    }

    /// The lowest row written so far.
    pub fn content_bottom_row(&self) -> (r: usize)
        ensures
            r == self@.bottom,
    {
        self.content_bottom_row
    }

    /// The style the next print uses.
    pub fn current_style(&self) -> (r: Style)
        ensures
            r == self@.style,
    {
        self.current_style
    }

    /// The grid of cells.
    pub fn grid(&self) -> (r: &Grid)
        requires
            self.wf(),
        ensures
            r.wf(),
            r@ == self@.rows,
            r.spec_height() == self@.height,
            r.spec_width() == self@.width,
    {
        &self.grid
    }

    /// Applies one event; see `apply_view`.
    pub fn apply(&mut self, e: &Event)
        requires
            old(self).wf(),
        ensures
            final(self).wf(),
            final(self)@ == apply_view(old(self)@, *e),
            final(self)@.height == old(self)@.height,
            final(self)@.width == old(self)@.width,
    {
        match e {
            Event::Print(c) => self.print(*c),
            Event::Execute(b) => self.execute(*b),
            Event::Csi { params, intermediates, ignore, action } => {
                self.csi_dispatch(params, intermediates, *ignore, *action)
            },
            _ => {},
        }
    }
}

/// The end of a range of columns that runs through the cursor column `col`,
/// cut at the width `w`.
fn through_cursor(col: usize, w: usize) -> (r: usize)
    requires
        col <= w,
    ensures
        r == if col < w { col + 1 } else { w as int },
{
    if col < w {
        col + 1
    } else {
        w
    }
}

/// The first value of parameter `i`, zero where absent.
fn param_of(params: &Vec<Vec<u16>>, i: usize) -> (r: usize)
    ensures
        r == param_at(params_view(params@), i as int),
{
    if i < params.len() && params[i].len() > 0 {
        params[i][0] as usize
    } else {
        0
    }
}

fn move_count_of(params: &Vec<Vec<u16>>) -> (r: usize)
    ensures
        r == move_count(params_view(params@)),
        r <= u16::MAX,
{
    let n = param_of(params, 0);
    if n == 0 {
        1
    } else {
        n
    }
}

fn position_of(params: &Vec<Vec<u16>>, i: usize) -> (r: usize)
    ensures
        r == position_param(params_view(params@), i as int),
{
    let n = param_of(params, i);
    if n == 0 {
        0
    } else {
        n - 1
    }
}

/// One graphic-rendition code applied to `s`; see `sgr_code`.
pub fn sgr_apply(s: Style, code: u16) -> (r: Style)
    ensures
        r == sgr_code(s, code),
{
    let f = s.flags;
    if code == 0 {
        Style::default()
    } else if code == 1 {
        Style { flags: CellFlags { bold: true, ..f }, ..s }
    } else if code == 3 {
        Style { flags: CellFlags { italic: true, ..f }, ..s }
    } else if code == 4 {
        Style { flags: CellFlags { underline: true, ..f }, ..s }
    } else if code == 7 {
        Style { flags: CellFlags { inverse: true, ..f }, ..s }
    } else if code == 22 {
        Style { flags: CellFlags { bold: false, ..f }, ..s }
    } else if code == 23 {
        Style { flags: CellFlags { italic: false, ..f }, ..s }
    } else if code == 24 {
        Style { flags: CellFlags { underline: false, ..f }, ..s }
    } else if code == 27 {
        Style { flags: CellFlags { inverse: false, ..f }, ..s }
    } else if 30 <= code && code <= 37 {
        Style { fg: base_color_of(code - 30), ..s }
    } else if 40 <= code && code <= 47 {
        Style { bg: base_color_of(code - 40), ..s }
    } else if 90 <= code && code <= 97 {
        Style { fg: bright_color_of(code - 90), ..s }
    } else {
        s
    }
}

fn base_color_of(i: u16) -> (r: Color)
    ensures
        r == base_color(i as int),
{
    match i {
        0 => Color::Black,
        1 => Color::Red,
        2 => Color::Green,
        3 => Color::Yellow,
        4 => Color::Blue,
        5 => Color::Magenta,
        6 => Color::Cyan,
        _ => Color::White,
    }
}

fn bright_color_of(i: u16) -> (r: Color)
    ensures
        r == bright_color(i as int),
{
    match i {
        0 => Color::DarkGray,
        1 => Color::LightRed,
        2 => Color::LightGreen,
        3 => Color::LightYellow,
        4 => Color::LightBlue,
        5 => Color::LightMagenta,
        6 => Color::LightCyan,
        _ => Color::White,
    }
}

} // verus!

verus! {

/// Rows of history that a virtual terminal keeps.
pub const SCROLLBACK_BUFFER_SIZE: usize = 500;

/// A virtual terminal as plain values: the terminal state, the number of
/// rows the viewport shows and how far it is scrolled back from the tail.
pub struct VtView {
    pub term: TermView,
    pub visible_rows: nat,
    pub scroll_offset: nat,
}

/// The furthest the viewport may scroll back: its top then stands at row 0.
pub open spec fn max_scroll(bottom: nat, visible_rows: nat) -> nat {
    sub_nat(bottom, sub_nat(visible_rows, 1))
}

/// The last row the viewport shows.
pub open spec fn viewport_bottom(v: VtView) -> nat {
    sub_nat(v.term.bottom, v.scroll_offset)
}

/// The first row the viewport shows.
pub open spec fn viewport_top(v: VtView) -> nat {
    sub_nat(viewport_bottom(v), sub_nat(v.visible_rows, 1))
}

impl VtView {
    pub open spec fn wf(self) -> bool {
        &&& self.term.wf()
        &&& self.term.height == SCROLLBACK_BUFFER_SIZE
        &&& self.term.width <= u16::MAX
        &&& self.visible_rows <= u16::MAX
        &&& self.scroll_offset <= max_scroll(self.term.bottom, self.visible_rows)
    }
}

/// A run of equally styled text within a line.
pub struct Span {
    pub content: String,
    pub style: Style,
}

/// One row of the viewport, as runs of text.
pub struct Line {
    pub spans: Vec<Span>,
}

/// The runs of a line as values.
pub open spec fn line_view(l: Line) -> Seq<(Seq<char>, Style)> {
    l.spans@.map_values(|s: Span| (s.content@, s.style))
}

/// `row` cut into runs, left to right, each as long as the cells keep the
/// same style.
pub open spec fn runs_of(row: Seq<Cell>) -> Seq<(Seq<char>, Style)>
    decreases row.len(),
{
    if row.len() == 0 {
        Seq::empty()
    } else {
        let prev = runs_of(row.drop_last());
        let cell = row.last();
        if prev.len() > 0 && prev.last().1 == cell.spec_style() {
            prev.update(prev.len() - 1, (prev.last().0.push(cell.c), cell.spec_style()))
        } else {
            prev.push((seq![cell.c], cell.spec_style()))
        }
    }
}

/// The runs of `row`; see `runs_of`.
pub fn row_to_line(row: &[Cell]) -> (r: Line)
    ensures
        line_view(r) == runs_of(row@),
{
    let mut spans: Vec<Span> = Vec::new();
    let mut j: usize = 0;
    while j < row.len()
        invariant
            j <= row@.len(),
            spans@.map_values(|s: Span| (s.content@, s.style)) == runs_of(row@.take(j as int)),
        decreases row@.len() - j,
    {
        let cell = row[j];
        let style = cell.style();
        let n = spans.len();
        let ghost prev = spans@.map_values(|s: Span| (s.content@, s.style));
        proof {
            assert(row@.take(j as int + 1).drop_last() =~= row@.take(j as int));
        }
        if n > 0 && spans[n - 1].style == style {
            let mut last = spans.pop().unwrap();
            push_char(&mut last.content, cell.c);
            spans.push(last);
            proof {
                assert(spans@.map_values(|s: Span| (s.content@, s.style)) =~= prev.update(
                    prev.len() - 1,
                    (prev.last().0.push(cell.c), cell.spec_style()),
                ));
            }
        } else {
            let mut content = String::new();
            push_char(&mut content, cell.c);
            spans.push(Span { content, style });
            proof {
                assert(spans@.map_values(|s: Span| (s.content@, s.style)) =~= prev.push(
                    (seq![cell.c], cell.spec_style()),
                ));
            }
        }
        j += 1;
    }
    proof {
        assert(row@.take(j as int) =~= row@);
    }
    Line { spans }
}

/// A terminal screen fed by a byte stream, with a viewport of fixed height
/// over its scrollback.
pub struct VirtualTerminal {
    state: TerminalState,
    parser: vte::Parser,
    visible_rows: u16,
    scroll_offset: usize,
}

impl View for VirtualTerminal {
    type V = VtView;

    closed spec fn view(&self) -> VtView {
        VtView {
            term: self.state@,
            visible_rows: self.visible_rows as nat,
            scroll_offset: self.scroll_offset as nat,
        }
    }
}

impl VirtualTerminal {
    pub closed spec fn inv(&self) -> bool {
        self.state.inv()
    }

    pub open spec fn wf(&self) -> bool {
        self.inv() && self@.wf()
    }

    /// A blank terminal `cols` wide whose viewport shows `rows` rows.
    pub fn new(rows: u16, cols: u16) -> (r: VirtualTerminal)
        requires
            cols > 0,
        ensures
            r.wf(),
            r@ == (VtView {
                term: TermView::initial(SCROLLBACK_BUFFER_SIZE as nat, cols as nat),
                visible_rows: rows as nat,
                scroll_offset: 0,
            }),
    {
        VirtualTerminal {
            state: TerminalState::new(SCROLLBACK_BUFFER_SIZE, cols as usize),
            parser: vte::Parser::new(),
            visible_rows: rows,
            scroll_offset: 0,
        }
    }

    /// Blanks the grid and puts the cursor, the lowest written row and the
    /// viewport back at the start. Style and saved cursor are kept.
    pub fn clear(&mut self)
        requires
            old(self).wf(),
        ensures
            final(self).wf(),
            final(self)@ == (VtView {
                term: TermView {
                    rows: blank_rows(old(self)@.term.height, old(self)@.term.width),
                    row: 0,
                    col: 0,
                    bottom: 0,
                    ..old(self)@.term
                },
                scroll_offset: 0,
                ..old(self)@
            }),
    {
        self.state.grid.clear_all();
        self.state.cursor_row = 0;
        self.state.cursor_col = 0;
        self.state.content_bottom_row = 0;
        self.scroll_offset = 0;
        proof {
            assert(self@.term =~= TermView {
                rows: blank_rows(old(self)@.term.height, old(self)@.term.width),
                row: 0,
                col: 0,
                bottom: 0,
                ..old(self)@.term
            });
        }
    }

    /// Snaps the viewport to the tail, then applies `events` in order.
    pub fn process_events(&mut self, events: &Vec<Event>)
        requires
            old(self).wf(),
        ensures
            final(self).wf(),
            final(self)@ == (VtView {
                term: apply_all_view(old(self)@.term, events@),
                scroll_offset: 0,
                ..old(self)@
            }),
    {
        self.scroll_offset = 0;
        let mut i: usize = 0;
        while i < events.len()
            invariant
                self.wf(),
                i <= events@.len(),
                self@ == (VtView {
                    term: apply_all_view(old(self)@.term, events@.take(i as int)),
                    scroll_offset: 0,
                    ..old(self)@
                }),
            decreases events@.len() - i,
        {
            self.state.apply(&events[i]);
            proof {
                assert(events@.take(i as int + 1).drop_last() =~= events@.take(i as int));
            }
            i += 1;
        }
        proof {
            assert(events@.take(i as int) =~= events@);
        }
    }

    /// The state of the parser, which carries a sequence cut at the end of
    /// one chunk of bytes over to the next.
    pub closed spec fn parser_state(&self) -> vte::Parser {
        self.parser
    }

    /// Feeds `bytes` to the parser and applies the events it recognises; a
    /// sequence cut at the end of `bytes` completes with the next call. New
    /// bytes snap the viewport to the tail; an empty slice changes nothing.
    pub fn process_bytes(&mut self, bytes: &[u8])
        requires
            old(self).wf(),
        ensures
            final(self).wf(),
            final(self)@.term == apply_all_view(old(self)@.term, vte_events(old(self).parser_state(), bytes@)),
            final(self)@.visible_rows == old(self)@.visible_rows,
            bytes@.len() > 0 ==> final(self)@.scroll_offset == 0,
            bytes@.len() == 0 ==> final(self)@ == old(self)@ && final(self).parser_state() == old(self).parser_state(),
    {
        if bytes.len() == 0 {
            let events = advance_parser(&mut self.parser, bytes);
            proof {
                assert(events@ =~= Seq::<Event>::empty());
            }
            return;
        }
        let events = advance_parser(&mut self.parser, bytes);
        self.process_events(&events);
    }

    /// Scrolls the viewport `amount` rows back, no further than row 0.
    pub fn scroll_up(&mut self, amount: usize)
        requires
            old(self).wf(),
        ensures
            final(self).wf(),
            final(self)@ == (VtView {
                scroll_offset: min_nat(
                    old(self)@.scroll_offset + amount as nat,
                    max_scroll(old(self)@.term.bottom, old(self)@.visible_rows),
                ),
                ..old(self)@
            }),
    {
        let rows_above = if self.visible_rows > 0 { (self.visible_rows - 1) as usize } else { 0 };
        let bottom = self.state.content_bottom_row;
        let max_scroll = if bottom >= rows_above { bottom - rows_above } else { 0 };
        self.scroll_offset = if amount >= max_scroll - self.scroll_offset {
            max_scroll
        } else {
            self.scroll_offset + amount
        };
    }

    /// Scrolls the viewport `amount` rows toward the tail, no further than
    /// the tail.
    pub fn scroll_down(&mut self, amount: usize)
        requires
            old(self).wf(),
        ensures
            final(self).wf(),
            final(self)@ == (VtView { scroll_offset: sub_nat(old(self)@.scroll_offset, amount as nat), ..old(self)@ }),
    {
        self.scroll_offset = if self.scroll_offset >= amount { self.scroll_offset - amount } else { 0 };
    }

    /// The rows from the viewport's top to its bottom, each as runs of
    /// equally styled text.
    pub fn get_visible_lines(&self) -> (r: Vec<Line>)
        requires
            self.wf(),
        ensures
            r@.len() == viewport_bottom(self@) - viewport_top(self@) + 1,
            forall|i: int| 0 <= i < r@.len() ==>
                line_view(#[trigger] r@[i]) == runs_of(self@.term.rows[viewport_top(self@) + i]),
    {
        let bottom = self.state.content_bottom_row;
        let vb = if bottom >= self.scroll_offset { bottom - self.scroll_offset } else { 0 };
        let rows_above = if self.visible_rows > 0 { (self.visible_rows - 1) as usize } else { 0 };
        let top = if vb >= rows_above { vb - rows_above } else { 0 };
        let mut lines: Vec<Line> = Vec::new();
        let mut k: usize = top;
        while k <= vb
            invariant
                self.wf(),
                top == viewport_top(self@),
                vb == viewport_bottom(self@),
                vb < self@.term.height,
                top <= k <= vb + 1,
                lines@.len() == k - top,
                forall|i: int| 0 <= i < lines@.len() ==>
                    line_view(#[trigger] lines@[i]) == runs_of(self@.term.rows[top + i]),
            decreases vb + 1 - k,
        {
            match self.state.grid.row(k) {
                Some(row) => {
                    lines.push(row_to_line(row));
                },
                None => {},
            }
            k += 1;
        }
        lines
    }

    /// The terminal state under the viewport.
    pub fn state(&self) -> (r: &TerminalState)
        requires
            self.wf(),
        ensures
            r.wf(),
            r@ == self@.term,
    {
        &self.state
    }

    /// How far the viewport is scrolled back from the tail.
    pub fn scroll_offset(&self) -> (r: usize)
        ensures
            r == self@.scroll_offset,
    {
        self.scroll_offset
    }

    /// The cursor's column and its row within the viewport, or `None`
    /// where the viewport does not show the cursor's row.
    pub fn get_cursor_position(&self) -> (r: Option<(u16, u16)>)
        requires
            self.wf(),
        ensures
            r == if viewport_top(self@) <= self@.term.row <= viewport_bottom(self@) {
                Some((self@.term.col as u16, (self@.term.row - viewport_top(self@)) as u16))
            } else {
                None::<(u16, u16)>
            },
    {
        let bottom = self.state.content_bottom_row;
        let vb = if bottom >= self.scroll_offset { bottom - self.scroll_offset } else { 0 };
        let rows_above = if self.visible_rows > 0 { (self.visible_rows - 1) as usize } else { 0 };
        let top = if vb >= rows_above { vb - rows_above } else { 0 };
        let row = self.state.cursor_row;
        if row >= top && row <= vb {
            Some((self.state.cursor_col as u16, (row - top) as u16))
        } else {
            None
        }
    }
}

} // verus!

verus! {

/// After the grid has scrolled up `n` rows, every line the viewport shows,
/// at any scroll offset, is a row that stood `n` rows lower before, or a
/// blank row: the `n` rows that were on top are shown nowhere.
pub proof fn lemma_scrolled_rows_leave_the_view(v: VtView, before: Seq<Seq<Cell>>, n: nat)
    requires
        v.wf(),
        n <= before.len(),
        v.term.rows == crate::grid::scrolled(before, n, v.term.width),
    ensures
        viewport_bottom(v) < v.term.height,
        forall|i: int|
            0 <= i <= viewport_bottom(v) - viewport_top(v) ==> #[trigger] v.term.rows[viewport_top(v) + i] == if viewport_top(v)
                + i + n < before.len() {
                before[viewport_top(v) + i + n]
            } else {
                crate::grid::blank_row(v.term.width)
            },
{
}

} // verus!
