use vstd::prelude::*;

use crate::cell::{Cell, CellFlags, Color, Style};
use crate::grid::{blank_row, blank_rows, clear_cols, clear_rows, scrolled};
use crate::terminal::runs_of;
use crate::parser::Event;

verus! {

/// Columns between two tab stops.
pub const TAB_WIDTH: usize = 8;

/// The state of a terminal as plain values: its rows of cells, top to
/// bottom, the cursor, the active style, the saved cursor and the lowest row
/// written so far.
pub struct TermView {
    pub rows: Seq<Seq<Cell>>,
    pub height: nat,
    pub width: nat,
    pub row: nat,
    pub col: nat,
    pub bottom: nat,
    pub style: Style,
    pub saved_row: nat,
    pub saved_col: nat,
}

impl TermView {
    /// Every row has the grid's width and every index lies in the grid. The
    /// cursor column may equal the width: the next print then wraps first.
    pub open spec fn wf(self) -> bool {
        &&& self.height > 0
        &&& self.width > 0
        &&& self.rows.len() == self.height
        &&& forall|r: int| 0 <= r < self.height ==> (#[trigger] self.rows[r]).len() == self.width
        &&& self.row < self.height
        &&& self.col < self.width
        &&& self.row <= self.bottom
        &&& self.bottom < self.height
        &&& self.saved_row < self.height
        &&& self.saved_col < self.width
    }

    /// A blank terminal with the cursor at the origin.
    pub open spec fn initial(height: nat, width: nat) -> TermView {
        TermView {
            rows: blank_rows(height, width),
            height,
            width,
            row: 0,
            col: 0,
            bottom: 0,
            style: Style::spec_default(),
            saved_row: 0,
            saved_col: 0,
        }
    }
}

pub open spec fn max_nat(a: nat, b: nat) -> nat {
    if a >= b {
        a
    } else {
        b
    }
}

pub open spec fn min_nat(a: nat, b: nat) -> nat {
    if a <= b {
        a
    } else {
        b
    }
}

/// `a - b`, or zero where `b` is larger.
pub open spec fn sub_nat(a: nat, b: nat) -> nat {
    if a >= b {
        (a - b) as nat
    } else {
        0
    }
}

/// Printing `ch`: write the cell at the cursor in the active style and step
/// right; past the last column wrap to the start of the next row, and past
/// the last row scroll the grid up one row and stay on the last row.
pub open spec fn print_view(v: TermView, ch: char) -> TermView {
    let rows = v.rows.update(v.row as int, v.rows[v.row as int].update(v.col as int, Cell::styled(ch, v.style)));
    if v.col + 1 < v.width {
        TermView { rows, col: v.col + 1, ..v }
    } else if v.row + 1 < v.height {
        TermView { rows, row: v.row + 1, col: 0, bottom: max_nat(v.bottom, v.row + 1), ..v }
    } else {
        TermView {
            rows: scrolled(rows, 1, v.width),
            row: (v.height - 1) as nat,
            col: 0,
            bottom: max_nat(v.bottom, (v.height - 1) as nat),
            ..v
        }
    }
}

/// Printing `ch` `n` times.
pub open spec fn print_n_view(v: TermView, ch: char, n: nat) -> TermView
    decreases n,
{
    if n == 0 {
        v
    } else {
        print_view(print_n_view(v, ch, (n - 1) as nat), ch)
    }
}

/// Line feed: one row down, scrolling at the bottom of the grid.
pub open spec fn line_feed_view(v: TermView) -> TermView {
    if v.row + 1 >= v.height {
        TermView {
            rows: scrolled(v.rows, 1, v.width),
            row: (v.height - 1) as nat,
            bottom: max_nat(v.bottom, (v.height - 1) as nat),
            ..v
        }
    } else {
        TermView { row: v.row + 1, bottom: max_nat(v.bottom, v.row + 1), ..v }
    }
}

/// Spaces that a tab prints from column `col`: up to the next multiple of
/// the tab width.
pub open spec fn tab_spaces(col: nat) -> nat {
    (TAB_WIDTH - col % (TAB_WIDTH as nat)) as nat
}

/// A single-byte control code: line feed, carriage return, tab and
/// backspace act; every other code is ignored.
pub open spec fn execute_view(v: TermView, byte: u8) -> TermView {
    if byte == 0x0a {
        line_feed_view(v)
    } else if byte == 0x0d {
        TermView { col: 0, ..v }
    } else if byte == 0x09 {
        print_n_view(v, ' ', tab_spaces(v.col))
    } else if byte == 0x08 {
        TermView { col: sub_nat(v.col, 1), ..v }
    } else {
        v
    }
}

/// The parameters of a control sequence as values.
pub open spec fn params_view(params: Seq<Vec<u16>>) -> Seq<Seq<u16>> {
    params.map_values(|p: Vec<u16>| p@)
}

/// The first value of parameter `i`; zero where it is absent, as the parser
/// itself writes an absent parameter.
pub open spec fn param_at(ps: Seq<Seq<u16>>, i: int) -> nat {
    if 0 <= i < ps.len() && ps[i].len() > 0 {
        ps[i][0] as nat
    } else {
        0
    }
}

/// The count of a relative cursor move: one where it is absent or zero.
pub open spec fn move_count(ps: Seq<Seq<u16>>) -> nat {
    if param_at(ps, 0) == 0 {
        1
    } else {
        param_at(ps, 0)
    }
}

/// Parameter `i` of an absolute position, 1-based in the stream, as a
/// 0-based index.
pub open spec fn position_param(ps: Seq<Seq<u16>>, i: int) -> nat {
    sub_nat(param_at(ps, i), 1)
}

/// Erase in display: 0 from the cursor to the end, 1 from the start to the
/// cursor, 2 everything. The cursor does not move.
pub open spec fn erase_display_rows(v: TermView, mode: nat) -> Seq<Seq<Cell>> {
    let r = v.row as int;
    if mode == 0 {
        clear_rows(v.rows, r + 1, v.height as int, v.width).update(r, clear_cols(v.rows[r], v.col as int, v.width as int))
    } else if mode == 1 {
        clear_rows(v.rows, 0, r, v.width).update(r, clear_cols(v.rows[r], 0, v.col + 1 as int))
    } else if mode == 2 {
        blank_rows(v.height, v.width)
    } else {
        v.rows
    }
}

/// Erase in line: the same three modes, on the cursor's row only.
pub open spec fn erase_line_rows(v: TermView, mode: nat) -> Seq<Seq<Cell>> {
    let r = v.row as int;
    if mode == 0 {
        v.rows.update(r, clear_cols(v.rows[r], v.col as int, v.width as int))
    } else if mode == 1 {
        v.rows.update(r, clear_cols(v.rows[r], 0, v.col + 1 as int))
    } else if mode == 2 {
        v.rows.update(r, blank_row(v.width))
    } else {
        v.rows
    }
}

/// The base colors of codes 30-37 and 40-47.
pub open spec fn base_color(i: int) -> Color {
    if i == 0 {
        Color::Black
    } else if i == 1 {
        Color::Red
    } else if i == 2 {
        Color::Green
    } else if i == 3 {
        Color::Yellow
    } else if i == 4 {
        Color::Blue
    } else if i == 5 {
        Color::Magenta
    } else if i == 6 {
        Color::Cyan
    } else {
        Color::White
    }
}

/// The bright colors of codes 90-97.
pub open spec fn bright_color(i: int) -> Color {
    if i == 0 {
        Color::DarkGray
    } else if i == 1 {
        Color::LightRed
    } else if i == 2 {
        Color::LightGreen
    } else if i == 3 {
        Color::LightYellow
    } else if i == 4 {
        Color::LightBlue
    } else if i == 5 {
        Color::LightMagenta
    } else if i == 6 {
        Color::LightCyan
    } else {
        Color::White
    }
}

pub open spec fn with_flags(s: Style, f: CellFlags) -> Style {
    Style { flags: f, ..s }
}

/// One graphic-rendition code applied to style `s`. Each code that clears an
/// attribute clears that attribute only; unknown codes change nothing.
pub open spec fn sgr_code(s: Style, code: u16) -> Style {
    let f = s.flags;
    if code == 0 {
        Style::spec_default()
    } else if code == 1 {
        with_flags(s, CellFlags { bold: true, ..f })
    } else if code == 3 {
        with_flags(s, CellFlags { italic: true, ..f })
    } else if code == 4 {
        with_flags(s, CellFlags { underline: true, ..f })
    } else if code == 7 {
        with_flags(s, CellFlags { inverse: true, ..f })
    } else if code == 22 {
        with_flags(s, CellFlags { bold: false, ..f })
    } else if code == 23 {
        with_flags(s, CellFlags { italic: false, ..f })
    } else if code == 24 {
        with_flags(s, CellFlags { underline: false, ..f })
    } else if code == 27 {
        with_flags(s, CellFlags { inverse: false, ..f })
    } else if 30 <= code <= 37 {
        Style { fg: base_color(code - 30), ..s }
    } else if 40 <= code <= 47 {
        Style { bg: base_color(code - 40), ..s }
    } else if 90 <= code <= 97 {
        Style { fg: bright_color(code - 90), ..s }
    } else {
        s
    }
}

/// The codes of `codes` applied in order.
pub open spec fn sgr_codes(s: Style, codes: Seq<u16>) -> Style
    decreases codes.len(),
{
    if codes.len() == 0 {
        s
    } else {
        sgr_code(sgr_codes(s, codes.drop_last()), codes.last())
    }
}

/// Every value of every parameter applied in order.
pub open spec fn sgr_params(s: Style, ps: Seq<Seq<u16>>) -> Style
    decreases ps.len(),
{
    if ps.len() == 0 {
        s
    } else {
        sgr_codes(sgr_params(s, ps.drop_last()), ps.last())
    }
}

/// A control sequence with final character `action` and parameters `ps`.
/// Moves are clamped to the grid; unknown final characters change nothing.
pub open spec fn csi_view(v: TermView, ps: Seq<Seq<u16>>, action: char) -> TermView {
    let n = move_count(ps);
    if action == 'A' {
        TermView { row: sub_nat(v.row, n), ..v }
    } else if action == 'B' {
        let r = min_nat(v.row + n, (v.height - 1) as nat);
        TermView { row: r, bottom: max_nat(v.bottom, r), ..v }
    } else if action == 'C' {
        TermView { col: min_nat(v.col + n, (v.width - 1) as nat), ..v }
    } else if action == 'D' {
        TermView { col: sub_nat(v.col, n), ..v }
    } else if action == 'H' {
        let r = min_nat(position_param(ps, 0), (v.height - 1) as nat);
        TermView {
            row: r,
            col: min_nat(position_param(ps, 1), (v.width - 1) as nat),
            bottom: max_nat(v.bottom, r),
            ..v
        }
    } else if action == 'J' {
        TermView { rows: erase_display_rows(v, param_at(ps, 0)), ..v }
    } else if action == 'K' {
        TermView { rows: erase_line_rows(v, param_at(ps, 0)), ..v }
    } else if action == 'm' {
        TermView { style: sgr_params(v.style, ps), ..v }
    } else if action == 's' {
        TermView { saved_row: v.row, saved_col: v.col, ..v }
    } else if action == 'u' {
        TermView {
            row: v.saved_row,
            col: v.saved_col,
            bottom: max_nat(v.bottom, v.saved_row),
            ..v
        }
    } else {
        v
    }
}

/// One event applied to the terminal; the string and escape forms change
/// nothing.
pub open spec fn apply_view(v: TermView, e: Event) -> TermView {
    match e {
        Event::Print(c) => print_view(v, c),
        Event::Execute(b) => execute_view(v, b),
        Event::Csi { params, action, .. } => csi_view(v, params_view(params@), action),
        _ => v,
    }
}

/// Events applied in order.
pub open spec fn apply_all_view(v: TermView, es: Seq<Event>) -> TermView
    decreases es.len(),
{
    if es.len() == 0 {
        v
    } else {
        apply_view(apply_all_view(v, es.drop_last()), es.last())
    }
}

} // verus!

verus! {

/// A relative cursor move (`A`, `B`, `C`, `D`), whatever its count, leaves
/// the cursor inside the grid.
pub proof fn lemma_relative_moves_stay_in_grid(v: TermView, ps: Seq<Seq<u16>>, action: char)
    requires
        v.wf(),
        action == 'A' || action == 'B' || action == 'C' || action == 'D',
    ensures
        csi_view(v, ps, action).wf(),
        csi_view(v, ps, action).row < v.height,
        csi_view(v, ps, action).col < v.width,
{
}

/// Bold on (`ESC[1m`), bold off (`ESC[22m`), then a print: the printed cell
/// is not bold, and its colors and other flags are those of the style before.
/// It stands at the cursor, or one row higher where the print into the
/// bottom-right cell scrolled the grid.
pub proof fn lemma_bold_off_clears_only_bold(v: TermView, c: char)
    requires
        v.wf(),
    ensures
        ({
            let on = csi_view(v, seq![seq![1u16]], 'm');
            let off = csi_view(on, seq![seq![22u16]], 'm');
            let p = print_view(off, c);
            let expected = Cell { c, fg: v.style.fg, bg: v.style.bg, flags: CellFlags { bold: false, ..v.style.flags } };
            &&& off.row == v.row && off.col == v.col
            &&& (v.row + 1 < v.height || v.col + 1 < v.width) ==> p.rows[v.row as int][v.col as int] == expected
            &&& (v.row + 1 == v.height && v.col + 1 == v.width && v.height > 1) ==> p.rows[v.height - 2][v.col as int]
                == expected
        }),
{
    let on = csi_view(v, seq![seq![1u16]], 'm');
    let off = csi_view(on, seq![seq![22u16]], 'm');
    assert(seq![seq![1u16]].drop_last() =~= Seq::<Seq<u16>>::empty());
    assert(seq![1u16].drop_last() =~= Seq::<u16>::empty());
    assert(seq![seq![22u16]].drop_last() =~= Seq::<Seq<u16>>::empty());
    assert(seq![22u16].drop_last() =~= Seq::<u16>::empty());
    let s0 = v.style;
    assert(seq![1u16].last() == 1u16);
    assert(sgr_codes(s0, Seq::<u16>::empty()) == s0);
    assert(sgr_codes(s0, seq![1u16]) == sgr_code(s0, 1u16));
    assert(seq![seq![1u16]].last() == seq![1u16]);
    assert(sgr_params(s0, Seq::<Seq<u16>>::empty()) == s0);
    assert(sgr_params(s0, seq![seq![1u16]]) == sgr_codes(s0, seq![1u16]));
    let s1 = sgr_code(s0, 1u16);
    assert(on.style == s1);
    assert(seq![22u16].last() == 22u16);
    assert(sgr_codes(s1, Seq::<u16>::empty()) == s1);
    assert(sgr_codes(s1, seq![22u16]) == sgr_code(s1, 22u16));
    assert(seq![seq![22u16]].last() == seq![22u16]);
    assert(sgr_params(s1, Seq::<Seq<u16>>::empty()) == s1);
    assert(sgr_params(s1, seq![seq![22u16]]) == sgr_codes(s1, seq![22u16]));
    assert(off.style == Style { flags: CellFlags { bold: false, ..v.style.flags }, ..v.style });
    assert(off.wf());
}

} // verus!

verus! {

/// The characters of `s` printed in order.
pub open spec fn print_all_view(v: TermView, s: Seq<char>) -> TermView
    decreases s.len(),
{
    if s.len() == 0 {
        v
    } else {
        print_view(print_all_view(v, s.drop_last()), s.last())
    }
}

/// Events that print the characters of `s`, one each, in order, act as
/// printing `s`.
pub proof fn lemma_print_events(v: TermView, es: Seq<Event>, s: Seq<char>)
    requires
        es.len() == s.len(),
        forall|i: int| 0 <= i < s.len() ==> #[trigger] es[i] == Event::Print(s[i]),
    ensures
        apply_all_view(v, es) == print_all_view(v, s),
    decreases s.len(),
{
    if s.len() > 0 {
        lemma_print_events(v, es.drop_last(), s.drop_last());
    }
}

/// The cell at row `r`, column `c` of the text `s` laid out row by row,
/// `w` cells wide, in the default style.
pub open spec fn laid_out(s: Seq<char>, w: nat, r: int, c: int) -> Cell {
    if r * w + c < s.len() {
        Cell::styled(s[r * w + c], Style::spec_default())
    } else {
        Cell::blank()
    }
}

proof fn lemma_cell_index_unique(r1: int, c1: int, r2: int, c2: int, w: int)
    requires
        0 <= c1 < w,
        0 <= c2 < w,
        0 <= r1,
        0 <= r2,
        r1 * w + c1 == r2 * w + c2,
    ensures
        r1 == r2,
        c1 == c2,
{
    if r1 < r2 {
        assert(r2 * w >= (r1 + 1) * w) by (nonlinear_arith)
            requires
                r1 < r2,
                0 < w,
        ;
        assert((r1 + 1) * w == r1 * w + w) by (nonlinear_arith);
    } else if r2 < r1 {
        assert(r1 * w >= (r2 + 1) * w) by (nonlinear_arith)
            requires
                r2 < r1,
                0 < w,
        ;
        assert((r2 + 1) * w == r2 * w + w) by (nonlinear_arith);
    }
}

/// Printing `s` into a blank grid of `h` rows `w` wide, where `s` is shorter
/// than the grid holds, lays it out row by row in the default style: the
/// cursor stands right after the last character and every other cell is
/// blank.
pub proof fn lemma_prints_lay_out_text(h: nat, w: nat, s: Seq<char>)
    requires
        h > 0,
        w > 0,
        s.len() < w * h,
    ensures
        ({
            let v = print_all_view(TermView::initial(h, w), s);
            &&& v.wf()
            &&& v.height == h
            &&& v.width == w
            &&& v.style == Style::spec_default()
            &&& v.row * w + v.col == s.len()
            &&& forall|r: int, c: int| 0 <= r < h && 0 <= c < w ==> #[trigger] v.rows[r][c] == laid_out(s, w, r, c)
        }),
    decreases s.len(),
{
    let init = TermView::initial(h, w);
    if s.len() == 0 {
        assert forall|r: int, c: int| 0 <= r < h && 0 <= c < w implies #[trigger] init.rows[r][c] == laid_out(s, w, r, c) by {
            assert(r * w + c >= 0) by (nonlinear_arith)
                requires
                    0 <= r,
                    0 <= c,
                    0 < w,
            ;
        }
    } else {
        let k = (s.len() - 1) as nat;
        let s0 = s.drop_last();
        let ch = s.last();
        lemma_prints_lay_out_text(h, w, s0);
        let v = print_all_view(init, s0);
        let p = print_view(v, ch);
        let r1: int = v.row as int;
        let c1: int = v.col as int;
        if c1 + 1 == w {
            assert((r1 + 1) * w == k + 1) by (nonlinear_arith)
                requires
                    r1 * w + c1 == k,
                    c1 + 1 == w,
            ;
            assert(r1 + 1 < h) by (nonlinear_arith)
                requires
                    (r1 + 1) * w == k + 1,
                    k + 1 < w * h,
                    0 < w,
                    0 <= r1,
            ;
            assert(p.row * w + p.col == k + 1);
        }
        assert forall|r: int, c: int| 0 <= r < h && 0 <= c < w implies #[trigger] p.rows[r][c] == laid_out(s, w, r, c) by {
            if r == r1 && c == c1 {
                assert(s[k as int] == ch);
            } else {
                if r * w + c == k {
                    lemma_cell_index_unique(r, c, r1, c1, w as int);
                }
                assert(v.rows[r][c] == laid_out(s0, w, r, c));
            }
        }
    }
}

/// A row whose cells all have the default style is a single run of its
/// characters.
pub proof fn lemma_plain_row_is_one_run(row: Seq<Cell>)
    requires
        row.len() > 0,
        forall|j: int| 0 <= j < row.len() ==> (#[trigger] row[j]).spec_style() == Style::spec_default(),
    ensures
        runs_of(row) == seq![(row.map_values(|x: Cell| x.c), Style::spec_default())],
    decreases row.len(),
{
    let prev = row.drop_last();
    if prev.len() == 0 {
        assert(runs_of(prev) =~= Seq::<(Seq<char>, Style)>::empty());
        assert(row.map_values(|x: Cell| x.c) =~= seq![row.last().c]);
    } else {
        lemma_plain_row_is_one_run(prev);
        assert(row.map_values(|x: Cell| x.c) =~= prev.map_values(|x: Cell| x.c).push(row.last().c));
        assert(runs_of(row) =~= seq![(row.map_values(|x: Cell| x.c), Style::spec_default())]);
    }
}

/// Printing text without control characters into a blank terminal, where
/// the text is shorter than the grid holds, shows each row as one run in
/// the default style: row `r` holds the characters `r * w` up to
/// `(r + 1) * w` of the text, padded with spaces. `es` are the events that
/// the parser makes of such text: one print per character.
pub proof fn lemma_printed_rows_are_plain_runs(h: nat, w: nat, s: Seq<char>, es: Seq<Event>, r: int)
    requires
        h > 0,
        w > 0,
        s.len() < w * h,
        es.len() == s.len(),
        forall|i: int| 0 <= i < s.len() ==> #[trigger] es[i] == Event::Print(s[i]),
        0 <= r < h,
    ensures
        runs_of(apply_all_view(TermView::initial(h, w), es).rows[r]) == seq![
            (Seq::new(w, |c: int| laid_out(s, w, r, c).c), Style::spec_default()),
        ],
{
    lemma_print_events(TermView::initial(h, w), es, s);
    lemma_prints_lay_out_text(h, w, s);
    let v = print_all_view(TermView::initial(h, w), s);
    let row = v.rows[r];
    assert(row.len() == w);
    assert forall|j: int| 0 <= j < row.len() implies (#[trigger] row[j]).spec_style() == Style::spec_default() by {
        assert(row[j] == laid_out(s, w, r, j));
    }
    lemma_plain_row_is_one_run(row);
    assert(row.map_values(|x: Cell| x.c) =~= Seq::new(w, |c: int| laid_out(s, w, r, c).c));
}

} // verus!

verus! {

/// The lowest row written never moves up: no event lowers it. Only an
/// explicit clear of the whole terminal puts it back to the top.
pub proof fn lemma_bottom_never_decreases(v: TermView, es: Seq<Event>)
    requires
        v.wf(),
    ensures
        apply_all_view(v, es).bottom >= v.bottom,
        apply_all_view(v, es).wf(),
        apply_all_view(v, es).height == v.height,
        apply_all_view(v, es).width == v.width,
    decreases es.len(),
{
    if es.len() > 0 {
        lemma_bottom_never_decreases(v, es.drop_last());
        let u = apply_all_view(v, es.drop_last());
        lemma_event_keeps_shape(u, es.last());
    }
}

proof fn lemma_print_n_keeps_shape(v: TermView, ch: char, n: nat)
    requires
        v.wf(),
    ensures
        print_n_view(v, ch, n).wf(),
        print_n_view(v, ch, n).bottom >= v.bottom,
        print_n_view(v, ch, n).height == v.height,
        print_n_view(v, ch, n).width == v.width,
    decreases n,
{
    if n > 0 {
        lemma_print_n_keeps_shape(v, ch, (n - 1) as nat);
        lemma_print_keeps_shape(print_n_view(v, ch, (n - 1) as nat), ch);
    }
}

proof fn lemma_print_keeps_shape(v: TermView, ch: char)
    requires
        v.wf(),
    ensures
        print_view(v, ch).wf(),
        print_view(v, ch).bottom >= v.bottom,
        print_view(v, ch).height == v.height,
        print_view(v, ch).width == v.width,
{
    let wrap = v.col >= v.width;
    let r1: nat = if wrap { v.row + 1 } else { v.row };
    if r1 >= v.height {
        assert forall|r: int| 0 <= r < v.height implies (#[trigger] scrolled(v.rows, 1, v.width)[r]).len() == v.width by {}
    }
}

proof fn lemma_event_keeps_shape(v: TermView, e: Event)
    requires
        v.wf(),
    ensures
        apply_view(v, e).wf(),
        apply_view(v, e).bottom >= v.bottom,
        apply_view(v, e).height == v.height,
        apply_view(v, e).width == v.width,
{
    match e {
        Event::Print(c) => lemma_print_keeps_shape(v, c),
        Event::Execute(b) => {
            if b == 0x09 {
                lemma_print_n_keeps_shape(v, ' ', tab_spaces(v.col));
            } else if b == 0x0a {
                if v.row + 1 >= v.height {
                    assert forall|r: int| 0 <= r < v.height implies (#[trigger] scrolled(v.rows, 1, v.width)[r]).len() == v.width by {}
                }
            }
        },
        Event::Csi { params, action, .. } => {
            let ps = params_view(params@);
            if action == 'J' {
                let m = param_at(ps, 0);
                let rows = erase_display_rows(v, m);
                assert forall|r: int| 0 <= r < v.height implies (#[trigger] rows[r]).len() == v.width by {}
            } else if action == 'K' {
                let m = param_at(ps, 0);
                let rows = erase_line_rows(v, m);
                assert forall|r: int| 0 <= r < v.height implies (#[trigger] rows[r]).len() == v.width by {}
            }
        },
        _ => {},
    }
}

} // verus!
