//! A growable, line-oriented virtual terminal grid driven by decoded
//! terminal commands.
//!
//! The grid has a fixed column width and a dynamically growing row count.
//! Rows are appended one at a time, each initialized to all-blank, only when
//! the cursor's row index demands it; the buffer is never truncated while a
//! session is active. Writing past the last column wraps to column zero of
//! the next row.

use crate::ansi_parser::{AnsiParser, Status, TermCmd, run};
use crate::strutil::push_char;
use vstd::prelude::*;

verus! {

/// The blank cell byte (an ASCII space).
pub const BLANK: u8 = 0x20;

/// Cursor position: column `x` (always less than the grid width) and row `y`
/// (which may point past the last allocated row until a write grows the grid).
#[derive(Clone, Copy, PartialEq, Eq, Debug, Structural)]
pub struct Cursor {
    pub x: u16,
    pub y: usize,
}

impl Default for Cursor {
    /// The home position: column zero of row zero.
    fn default() -> (r: Self)
        ensures
            r.x == 0 && r.y == 0,
    {
        Cursor { x: 0, y: 0 }
    }
}

/// The mathematical state of a grid: its width, its rows (each a sequence of
/// exactly `width` cell bytes), and the cursor position.
#[verifier::ext_equal]
pub struct GridView {
    pub width: nat,
    pub rows: Seq<Seq<u8>>,
    pub x: nat,
    pub y: nat,
}

/// A row of `width` blank cells.
pub open spec fn blank_row(width: nat) -> Seq<u8> {
    Seq::new(width, |i: int| BLANK)
}

/// Well-formedness: a positive width, a cursor column inside the row, and
/// every allocated row of exactly `width` cells.
pub open spec fn gv_wf(g: GridView) -> bool {
    &&& 1 <= g.width
    &&& g.x < g.width
    &&& forall|i: int| 0 <= i < g.rows.len() ==> (#[trigger] g.rows[i]).len() == g.width
}

/// The state of a freshly constructed grid: no rows, cursor at home.
pub open spec fn gv_new(width: nat) -> GridView {
    GridView { width, rows: seq![], x: 0, y: 0 }
}

/// The grid grown with blank rows until the cursor's row is allocated.
pub open spec fn gv_grown(g: GridView) -> GridView {
    if g.y >= g.rows.len() {
        GridView {
            rows: g.rows + Seq::new((g.y + 1 - g.rows.len()) as nat, |i: int| blank_row(g.width)),
            ..g
        }
    } else {
        g
    }
}

/// Write `ch` at the cursor, then advance the column, wrapping to column zero
/// of the next row when the last column was written.
pub open spec fn gv_put_char(g: GridView, ch: u8) -> GridView {
    let g1 = gv_grown(g);
    let rows = g1.rows.update(g1.y as int, g1.rows[g1.y as int].update(g1.x as int, ch));
    if g1.x + 1 == g1.width {
        GridView { rows, x: 0, y: (g1.y + 1) as nat, ..g1 }
    } else {
        GridView { rows, x: (g1.x + 1) as nat, ..g1 }
    }
}

pub open spec fn gv_carriage_return(g: GridView) -> GridView {
    GridView { x: 0, ..g }
}

/// Move to column zero of the next row. The row index saturates at the
/// machine bound, which no real session approaches.
pub open spec fn gv_line_feed(g: GridView) -> GridView {
    GridView { x: 0, y: if g.y < usize::MAX as nat { (g.y + 1) as nat } else { g.y }, ..g }
}

/// Move the cursor up `n` rows, stopping at row zero.
pub open spec fn gv_cursor_up(g: GridView, n: u8) -> GridView {
    GridView { y: if g.y >= n as nat { (g.y - n) as nat } else { 0 }, ..g }
}

/// `row` with every cell at column `from` or later made blank.
pub open spec fn erased_row(row: Seq<u8>, from: nat) -> Seq<u8> {
    Seq::new(row.len(), |i: int| if i >= from { BLANK } else { row[i] })
}

/// Erase from the cursor to the end of its row; a silent no-op on a row
/// beyond the allocated buffer.
pub open spec fn gv_erase(g: GridView) -> GridView {
    if g.y < g.rows.len() {
        GridView { rows: g.rows.update(g.y as int, erased_row(g.rows[g.y as int], g.x)), ..g }
    } else {
        g
    }
}

/// Apply one decoded terminal command to the grid.
pub open spec fn gv_apply(g: GridView, cmd: TermCmd) -> GridView {
    match cmd {
        TermCmd::PutChar(c) => gv_put_char(g, c),
        TermCmd::CarriageReturn => gv_carriage_return(g),
        TermCmd::LineFeed => gv_line_feed(g),
        TermCmd::CursorUp(n) => gv_cursor_up(g, n),
        TermCmd::EraseFromCursorToEol => gv_erase(g),
    }
}

/// Apply a sequence of commands, in order.
pub open spec fn gv_apply_all(g: GridView, cmds: Seq<TermCmd>) -> GridView
    decreases cmds.len(),
{
    if cmds.len() == 0 {
        g
    } else {
        gv_apply_all(gv_apply(g, cmds[0]), cmds.drop_first())
    }
}

pub proof fn lemma_apply_all_snoc(g: GridView, cmds: Seq<TermCmd>, cmd: TermCmd)
    ensures
        gv_apply_all(g, cmds.push(cmd)) == gv_apply(gv_apply_all(g, cmds), cmd),
    decreases cmds.len(),
{
    if cmds.len() == 0 {
        reveal_with_fuel(gv_apply_all, 3);
        assert(cmds.push(cmd).drop_first() =~= Seq::<TermCmd>::empty());
    } else {
        assert(cmds.push(cmd)[0] == cmds[0]);
        assert(cmds.push(cmd).drop_first() =~= cmds.drop_first().push(cmd));
        lemma_apply_all_snoc(gv_apply(g, cmds[0]), cmds.drop_first(), cmd);
    }
}

/// Every command preserves well-formedness.
pub proof fn lemma_apply_preserves_wf(g: GridView, cmd: TermCmd)
    requires
        gv_wf(g),
    ensures
        gv_wf(gv_apply(g, cmd)),
{
}

pub proof fn lemma_apply_all_preserves_wf(g: GridView, cmds: Seq<TermCmd>)
    requires
        gv_wf(g),
    ensures
        gv_wf(gv_apply_all(g, cmds)),
    decreases cmds.len(),
{
    if cmds.len() > 0 {
        lemma_apply_preserves_wf(g, cmds[0]);
        lemma_apply_all_preserves_wf(gv_apply(g, cmds[0]), cmds.drop_first());
    }
}

/// `s` with its trailing blanks removed.
pub open spec fn trim_end_spaces(s: Seq<u8>) -> Seq<u8>
    decreases s.len(),
{
    if s.len() > 0 && s.last() == BLANK {
        trim_end_spaces(s.drop_last())
    } else {
        s
    }
}

/// The cell bytes read as characters.
pub open spec fn chars_of(s: Seq<u8>) -> Seq<char> {
    Seq::new(s.len(), |i: int| s[i] as char)
}

/// One rendered row: its cells (trailing blanks removed if `trim` is set)
/// followed by a newline.
pub open spec fn line_text(row: Seq<u8>, trim: bool) -> Seq<char> {
    chars_of(if trim { trim_end_spaces(row) } else { row }).push('\n')
}

/// All rows rendered in order.
pub open spec fn rows_text(rows: Seq<Seq<u8>>, trim: bool) -> Seq<char>
    decreases rows.len(),
{
    if rows.len() == 0 {
        seq![]
    } else {
        rows_text(rows.drop_last(), trim) + line_text(rows.last(), trim)
    }
}

/// The decoder run and grid application that one `feed` call performs.
pub open spec fn term_after_feed(status: Status, params: Seq<u8>, g: GridView, data: Seq<u8>) -> (
    Status,
    Seq<u8>,
    GridView,
) {
    let r = run(status, params, data);
    (r.0, r.1, gv_apply_all(g, r.2))
}

/// The inner state of a terminal: the grid cells, kept one `Vec<u8>` of
/// exactly `width` cells per row, and the cursor.
pub struct TermState {
    pub width: u16,
    pub lines: Vec<Vec<u8>>,
    pub cursor: Cursor,
}

impl View for TermState {
    type V = GridView;

    open spec fn view(&self) -> GridView {
        GridView {
            width: self.width as nat,
            rows: Seq::new(self.lines@.len(), |i: int| self.lines@[i]@),
            x: self.cursor.x as nat,
            y: self.cursor.y as nat,
        }
    }
}

/// A `Vec` holding one blank row.
fn blank_line(width: u16) -> (r: Vec<u8>)
    ensures
        r@ == blank_row(width as nat),
{
    let mut r: Vec<u8> = Vec::new();
    let mut i: usize = 0;
    while i < width as usize
        invariant
            i <= width as usize,
            r@.len() == i,
            forall|j: int| 0 <= j < i ==> r@[j] == BLANK,
        decreases width as usize - i,
    {
        r.push(BLANK);
        i = i + 1;
    }
    proof {
        assert(r@ =~= blank_row(width as nat));
    }
    r
}

impl TermState {
    pub open spec fn wf(&self) -> bool {
        gv_wf(self@)
    }

    pub fn new(width: u16) -> (r: Self)
        requires
            1 <= width,
        ensures
            r.wf(),
            r@ == gv_new(width as nat),
    {
        let r = TermState { width, lines: Vec::new(), cursor: Cursor { x: 0, y: 0 } };
        proof {
            assert(r@ =~= gv_new(width as nat));
        }
        r
    }

    /// Append one blank row.
    pub fn extend(&mut self)
        requires
            old(self).wf(),
        ensures
            final(self).wf(),
            final(self)@ == (GridView {
                rows: old(self)@.rows.push(blank_row(old(self)@.width)),
                ..old(self)@
            }),
    {
        let row = blank_line(self.width);
        self.lines.push(row);
        proof {
            assert(final(self)@.rows =~= old(self)@.rows.push(blank_row(old(self)@.width)));
            assert(final(self)@ =~= (GridView {
                rows: old(self)@.rows.push(blank_row(old(self)@.width)),
                ..old(self)@
            }));
        }
    }

    /// Append blank rows until the cursor's row is allocated.
    pub fn extend_while_cursor_past(&mut self)
        requires
            old(self).wf(),
        ensures
            final(self).wf(),
            final(self)@ == gv_grown(old(self)@),
    {
        while self.cursor.y >= self.lines.len()
            invariant
                self.wf(),
                self.width == old(self).width,
                self.cursor == old(self).cursor,
                old(self)@.rows.len() <= self@.rows.len(),
                self@.rows.len() > old(self)@.rows.len() ==> self@.rows.len() <= self@.y + 1,
                self@.rows =~= old(self)@.rows + Seq::new(
                    (self@.rows.len() - old(self)@.rows.len()) as nat,
                    |i: int| blank_row(old(self)@.width),
                ),
            decreases self.cursor.y + 1 - self.lines.len(),
        {
            let ghost prev = self@;
            self.extend();
            proof {
                assert(self@.rows =~= old(self)@.rows + Seq::new(
                    (self@.rows.len() - old(self)@.rows.len()) as nat,
                    |i: int| blank_row(old(self)@.width),
                ));
            }
        }
        proof {
            if old(self)@.y >= old(self)@.rows.len() {
                assert(self@.rows.len() == self@.y + 1);
                assert(self@ =~= gv_grown(old(self)@));
            } else {
                assert(self@.rows =~= old(self)@.rows);
                assert(self@ =~= old(self)@);
            }
        }
    }

    /// Write `ch` at the cursor and advance, wrapping at the last column.
    pub fn put_char(&mut self, ch: u8)
        requires
            old(self).wf(),
        ensures
            final(self).wf(),
            final(self)@ == gv_put_char(old(self)@, ch),
    {
        self.extend_while_cursor_past();
        let ghost grown = self@;
        let y: usize = self.cursor.y;
        let x: usize = self.cursor.x as usize;
        proof {
            assert(grown == gv_grown(old(self)@));
            assert(grown.y < grown.rows.len());
            assert(self.lines@.len() == grown.rows.len());
            assert(self.lines@[y as int]@ == grown.rows[y as int]);
            assert(grown.rows[y as int].len() == grown.width);
        }
        self.lines[y][x] = ch;
        proof {
            assert(self@.rows =~= grown.rows.update(
                grown.y as int,
                grown.rows[grown.y as int].update(grown.x as int, ch),
            ));
        }
        self.cursor.x = self.cursor.x + 1;
        if self.cursor.x >= self.width {
            self.cursor.x = 0;
            proof {
                vstd::std_specs::vec::axiom_spec_len(&self.lines);
                assert(self.cursor.y < self.lines@.len());
            }
            self.cursor.y = self.cursor.y + 1;
        }
        proof {
            assert(self@ =~= gv_put_char(old(self)@, ch));
        }
    }

    /// Move the cursor to column zero of the current row.
    pub fn carriage_return(&mut self)
        requires
            old(self).wf(),
        ensures
            final(self).wf(),
            final(self)@ == gv_carriage_return(old(self)@),
    {
        self.cursor.x = 0;
        proof {
            assert(self@ =~= gv_carriage_return(old(self)@));
        }
    }

    /// Move the cursor to column zero of the next row. The grid grows lazily:
    /// the new row is allocated only when something is written to it.
    pub fn line_feed(&mut self)
        requires
            old(self).wf(),
        ensures
            final(self).wf(),
            final(self)@ == gv_line_feed(old(self)@),
    {
        self.cursor.x = 0;
        self.cursor.y = self.cursor.y.saturating_add(1);
        proof {
            assert(self@ =~= gv_line_feed(old(self)@));
        }
    }

    /// Move the cursor up `n` rows; a count past the top lands on row zero.
    pub fn cursor_up(&mut self, n: u8)
        requires
            old(self).wf(),
        ensures
            final(self).wf(),
            final(self)@ == gv_cursor_up(old(self)@, n),
            n as nat > old(self)@.y ==> final(self)@.y == 0,
    {
        self.cursor.y = self.cursor.y.saturating_sub(n as usize);
        proof {
            assert(self@ =~= gv_cursor_up(old(self)@, n));
        }
    }

    /// Blank the current row from the cursor's column to its end; rows beyond
    /// the allocated buffer are left alone.
    pub fn erase_from_cursor_to_eol(&mut self)
        requires
            old(self).wf(),
        ensures
            final(self).wf(),
            final(self)@ == gv_erase(old(self)@),
    {
        let y: usize = self.cursor.y;
        if y >= self.lines.len() {
            proof {
                assert(self@ =~= gv_erase(old(self)@));
            }
            return ;
        }
        let mut x: usize = self.cursor.x as usize;
        let width: usize = self.width as usize;
        while x < width
            invariant
                old(self)@.x <= x <= width,
                width == old(self)@.width,
                y == old(self)@.y,
                y < old(self)@.rows.len(),
                old(self).wf(),
                self.width == old(self).width,
                self.cursor == old(self).cursor,
                self@.rows.len() == old(self)@.rows.len(),
                forall|i: int|
                    0 <= i < self@.rows.len() && i != y ==> self@.rows[i] == old(self)@.rows[i],
                self@.rows[y as int] =~= Seq::new(
                    old(self)@.rows[y as int].len(),
                    |i: int|
                        if old(self)@.x <= i < x {
                            BLANK
                        } else {
                            old(self)@.rows[y as int][i]
                        },
                ),
            decreases width - x,
        {
            self.lines[y][x] = BLANK;
            x = x + 1;
        }
        proof {
            assert(self@.rows[y as int] =~= erased_row(old(self)@.rows[y as int], old(self)@.x));
            assert(self@.rows =~= old(self)@.rows.update(
                y as int,
                erased_row(old(self)@.rows[y as int], old(self)@.x),
            ));
            assert(self@ =~= gv_erase(old(self)@));
        }
    }

    /// Apply one decoded terminal command.
    pub fn apply_cmd(&mut self, cmd: TermCmd)
        requires
            old(self).wf(),
        ensures
            final(self).wf(),
            final(self)@ == gv_apply(old(self)@, cmd),
            // A cursor-up past the top never panics and lands on row zero.
            cmd matches TermCmd::CursorUp(n) && n as nat > old(self)@.y ==> final(self)@.y == 0,
    {
        match cmd {
            TermCmd::PutChar(c) => self.put_char(c),
            TermCmd::CarriageReturn => self.carriage_return(),
            TermCmd::LineFeed => self.line_feed(),
            TermCmd::CursorUp(n) => self.cursor_up(n),
            TermCmd::EraseFromCursorToEol => self.erase_from_cursor_to_eol(),
        }
    }

    /// One row of cells.
    pub fn line_slice(&self, y: usize) -> (r: &Vec<u8>)
        requires
            y < self@.rows.len(),
        ensures
            r@ == self@.rows[y as int],
    {
        &self.lines[y]
    }

    /// The visible buffer as newline-joined rows; trailing blanks of each row
    /// are removed when `trim` is set.
    pub fn render(&self, trim: bool) -> (r: String)
        requires
            self.wf(),
        ensures
            r@ == rows_text(self@.rows, trim),
    {
        let mut r = String::new();
        let mut y: usize = 0;
        proof {
            assert(self@.rows.take(0) =~= Seq::<Seq<u8>>::empty());
        }
        while y < self.lines.len()
            invariant
                y <= self.lines.len(),
                self.wf(),
                r@ == rows_text(self@.rows.take(y as int), trim),
            decreases self.lines.len() - y,
        {
            let ghost prev = r@;
            let row = &self.lines[y];
            let mut end: usize = row.len();
            if trim {
                while end > 0 && row[end - 1] == BLANK
                    invariant
                        end <= row@.len(),
                        forall|j: int| end <= j < row@.len() ==> row@[j] == BLANK,
                    decreases end,
                {
                    end = end - 1;
                }
                proof {
                    lemma_trim_is_take(row@, end as int);
                }
            }
            let mut i: usize = 0;
            while i < end
                invariant
                    i <= end,
                    end <= row@.len(),
                    r@ == prev + chars_of(row@.take(end as int)).take(i as int),
                decreases end - i,
            {
                let b: u8 = row[i];
                push_char(&mut r, b as char);
                proof {
                    assert(r@ =~= prev + chars_of(row@.take(end as int)).take(i + 1));
                }
                i = i + 1;
            }
            push_char(&mut r, '\n');
            proof {
                let rowv = self@.rows[y as int];
                let shown = if trim {
                    trim_end_spaces(rowv)
                } else {
                    rowv
                };
                assert(chars_of(row@.take(end as int)).take(end as int) =~= chars_of(
                    row@.take(end as int),
                ));
                if !trim {
                    assert(row@.take(end as int) =~= rowv);
                }
                assert(r@ =~= prev + line_text(rowv, trim));
                assert(self@.rows.take(y + 1).drop_last() =~= self@.rows.take(y as int));
                assert(self@.rows.take(y + 1).last() == rowv);
            }
            y = y + 1;
        }
        proof {
            assert(self@.rows.take(self@.rows.len() as int) =~= self@.rows);
        }
        r
    }
}

/// Trailing blanks from `end` onward mean trimming `s` is trimming its prefix.
proof fn lemma_trim_is_take(s: Seq<u8>, end: int)
    requires
        0 <= end <= s.len(),
        forall|j: int| end <= j < s.len() ==> s[j] == BLANK,
        end > 0 ==> s[end - 1] != BLANK,
    ensures
        trim_end_spaces(s) == s.take(end),
    decreases s.len(),
{
    if s.len() == end {
        assert(s.take(end) =~= s);
        if end > 0 {
            assert(s.last() != BLANK);
        }
    } else {
        assert(s.last() == BLANK);
        assert(s.drop_last() =~= s.take(s.len() - 1));
        lemma_trim_is_take(s.drop_last(), end);
        assert(s.drop_last().take(end) =~= s.take(end));
    }
}

/// A virtual terminal: the grid plus the escape decoder that drives it.
pub struct AnsiTerm {
    pub term_state: TermState,
    pub ansi_parser: AnsiParser,
}

impl AnsiTerm {
    pub open spec fn wf(&self) -> bool {
        self.term_state.wf()
    }

    pub fn new(width: u16) -> (r: Self)
        requires
            1 <= width,
        ensures
            r.wf(),
            r.term_state@ == gv_new(width as nat),
            r.ansi_parser.status == Status::Normal,
            r.ansi_parser.params@ == Seq::<u8>::empty(),
    {
        AnsiTerm { term_state: TermState::new(width), ansi_parser: AnsiParser::default() }
    }

    /// Drive raw output bytes through the decoder and apply every resulting
    /// command to the grid.
    pub fn feed(&mut self, data: &[u8])
        requires
            old(self).wf(),
        ensures
            final(self).wf(),
            ({
                let r = term_after_feed(
                    old(self).ansi_parser.status,
                    old(self).ansi_parser.params@,
                    old(self).term_state@,
                    data@,
                );
                &&& final(self).ansi_parser.status == r.0
                &&& final(self).ansi_parser.params@ == r.1
                &&& final(self).term_state@ == r.2
            }),
    {
        let cmds = self.ansi_parser.advance(data);
        let ghost all = cmds@;
        let ghost pstatus = self.ansi_parser.status;
        let ghost pparams = self.ansi_parser.params@;
        let mut i: usize = 0;
        proof {
            assert(all.take(0) =~= Seq::<TermCmd>::empty());
        }
        while i < cmds.len()
            invariant
                i <= cmds.len(),
                all == cmds@,
                self.ansi_parser.status == pstatus,
                self.ansi_parser.params@ == pparams,
                self.term_state.wf(),
                self.term_state@ == gv_apply_all(old(self).term_state@, all.take(i as int)),
            decreases cmds.len() - i,
        {
            proof {
                lemma_apply_all_snoc(old(self).term_state@, all.take(i as int), all[i as int]);
                assert(all.take(i + 1) =~= all.take(i as int).push(all[i as int]));
            }
            self.term_state.apply_cmd(cmds[i]);
            i = i + 1;
        }
        proof {
            assert(all.take(all.len() as int) =~= all);
        }
    }

    /// Clear all grid and decoder state, as at the start of a new playback
    /// session.
    pub fn reset(&mut self)
        requires
            old(self).wf(),
        ensures
            final(self).wf(),
            final(self).term_state@ == gv_new(old(self).term_state@.width),
            final(self).ansi_parser.status == Status::Normal,
            final(self).ansi_parser.params@ == Seq::<u8>::empty(),
            final(self).term_state.width == old(self).term_state.width,
    {
        self.term_state.cursor = Cursor { x: 0, y: 0 };
        self.term_state.lines.clear();
        self.ansi_parser = AnsiParser::default();
        proof {
            assert(self.term_state@ =~= gv_new(old(self).term_state@.width));
        }
    }

    /// The visible buffer as newline-joined rows, trailing blanks of each row
    /// removed.
    pub fn contents_to_string(&self) -> (r: String)
        requires
            self.wf(),
        ensures
            r@ == rows_text(self.term_state@.rows, true),
    {
        self.term_state.render(true)
    }
}

/// A terminal after `reset` is in the same state as a freshly constructed
/// terminal of the same width, so feeding both any byte sequence leaves them
/// in identical states.
pub proof fn lemma_reset_feed_like_fresh(t: AnsiTerm, width: nat, data: Seq<u8>)
    requires
        t.term_state@ == gv_new(width),
        t.ansi_parser.status == Status::Normal,
        t.ansi_parser.params@ == Seq::<u8>::empty(),
    ensures
        term_after_feed(t.ansi_parser.status, t.ansi_parser.params@, t.term_state@, data)
            == term_after_feed(Status::Normal, Seq::<u8>::empty(), gv_new(width), data),
{
}

/// Feeding `A`, carriage return, line feed, `B` into a fresh terminal of
/// width at least two yields exactly two rows whose trimmed text is `A` and
/// `B`. (Width one excluded: there the `A` already fills its row and wraps,
/// so the line feed opens a third row.)
pub proof fn lemma_cr_lf_makes_two_rows(width: nat)
    requires
        2 <= width,
    ensures
        ({
            let r = run(Status::Normal, seq![], seq![0x41u8, 0x0du8, 0x0au8, 0x42u8]);
            let g = gv_apply_all(gv_new(width), r.2);
            &&& g.rows.len() == 2
            &&& trim_end_spaces(g.rows[0]) == seq![0x41u8]
            &&& trim_end_spaces(g.rows[1]) == seq![0x42u8]
        }),
{
    let bytes = seq![0x41u8, 0x0du8, 0x0au8, 0x42u8];
    let cmds = seq![
        TermCmd::PutChar(0x41),
        TermCmd::CarriageReturn,
        TermCmd::LineFeed,
        TermCmd::PutChar(0x42),
    ];
    assert(run(Status::Normal, seq![], bytes).2 =~= cmds) by {
        reveal_with_fuel(run, 6);
        assert(bytes.drop_first() =~= seq![0x0du8, 0x0au8, 0x42u8]);
        assert(seq![0x0du8, 0x0au8, 0x42u8].drop_first() =~= seq![0x0au8, 0x42u8]);
        assert(seq![0x0au8, 0x42u8].drop_first() =~= seq![0x42u8]);
        assert(seq![0x42u8].drop_first() =~= Seq::<u8>::empty());
    }
    let g0 = gv_new(width);
    let g1 = gv_apply(g0, cmds[0]);
    let g2 = gv_apply(g1, cmds[1]);
    let g3 = gv_apply(g2, cmds[2]);
    let g4 = gv_apply(g3, cmds[3]);
    assert(gv_apply_all(g0, cmds) == g4) by {
        reveal_with_fuel(gv_apply_all, 6);
        assert(cmds.drop_first() =~= seq![
            TermCmd::CarriageReturn,
            TermCmd::LineFeed,
            TermCmd::PutChar(0x42),
        ]);
        assert(seq![TermCmd::CarriageReturn, TermCmd::LineFeed, TermCmd::PutChar(0x42)].drop_first()
            =~= seq![TermCmd::LineFeed, TermCmd::PutChar(0x42)]);
        assert(seq![TermCmd::LineFeed, TermCmd::PutChar(0x42)].drop_first() =~= seq![
            TermCmd::PutChar(0x42),
        ]);
        assert(seq![TermCmd::PutChar(0x42)].drop_first() =~= Seq::<TermCmd>::empty());
    }
    let row_a = blank_row(width).update(0, 0x41u8);
    let row_b = blank_row(width).update(0, 0x42u8);
    assert(gv_grown(g0).rows =~= seq![blank_row(width)]);
    assert(g1.rows =~= seq![row_a]);
    assert(g1 == GridView { width, rows: seq![row_a], x: 1, y: 0 });
    assert(g2 == GridView { width, rows: seq![row_a], x: 0, y: 0 });
    assert(g3 == GridView { width, rows: seq![row_a], x: 0, y: 1 });
    assert(gv_grown(g3).rows =~= seq![row_a, blank_row(width)]);
    assert(g4.rows =~= seq![row_a, row_b]);
    lemma_trim_is_take(row_a, 1);
    lemma_trim_is_take(row_b, 1);
    assert(row_a.take(1) =~= seq![0x41u8]);
    assert(row_b.take(1) =~= seq![0x42u8]);
}

/// The put-char commands for a sequence of cell bytes.
pub open spec fn put_cmds(chs: Seq<u8>) -> Seq<TermCmd> {
    Seq::new(chs.len(), |i: int| TermCmd::PutChar(chs[i]))
}

/// The first `k` characters written into a row of width `width`, the rest
/// still blank.
pub open spec fn row_filled(chs: Seq<u8>, k: nat, width: nat) -> Seq<u8> {
    Seq::new(width, |i: int| if i < k { chs[i] } else { BLANK })
}

/// Writing `k <= width` characters into a fresh grid fills the first row left
/// to right; writing the `width`-th wraps the cursor to row one, column zero.
proof fn lemma_fill_prefix(width: nat, chs: Seq<u8>, k: nat)
    requires
        1 <= width,
        k <= chs.len(),
        k <= width,
    ensures
        ({
            let g = gv_apply_all(gv_new(width), put_cmds(chs.take(k as int)));
            if k == 0 {
                g == gv_new(width)
            } else if k < width {
                g == GridView { width, rows: seq![row_filled(chs, k, width)], x: k, y: 0 }
            } else {
                g == GridView { width, rows: seq![row_filled(chs, k, width)], x: 0, y: 1 }
            }
        }),
    decreases k,
{
    if k == 0 {
        assert(put_cmds(chs.take(0)) =~= Seq::<TermCmd>::empty());
    } else {
        lemma_fill_prefix(width, chs, (k - 1) as nat);
        let prev = gv_apply_all(gv_new(width), put_cmds(chs.take(k - 1)));
        assert(put_cmds(chs.take(k as int)) =~= put_cmds(chs.take(k - 1)).push(
            TermCmd::PutChar(chs[k - 1]),
        ));
        lemma_apply_all_snoc(gv_new(width), put_cmds(chs.take(k - 1)), TermCmd::PutChar(chs[k - 1]));
        let g = gv_apply(prev, TermCmd::PutChar(chs[k - 1]));
        if k - 1 == 0 {
            assert(gv_grown(prev).rows =~= seq![blank_row(width)]);
            assert(gv_grown(prev).rows[0].update(0, chs[0]) =~= row_filled(chs, 1, width));
            assert(g.rows =~= seq![row_filled(chs, 1, width)]);
        } else {
            assert(gv_grown(prev) == prev);
            assert(prev.rows[0].update(k - 1, chs[k - 1]) =~= row_filled(chs, k, width));
            assert(g.rows =~= seq![row_filled(chs, k, width)]);
        }
    }
}

/// A put-char stream exactly filling one row of width `width`, followed by
/// one more put-char, produces a grid with at least two rows, and the extra
/// character stands at column zero of row one.
pub proof fn lemma_fill_row_then_wrap(width: nat, chs: Seq<u8>)
    requires
        1 <= width,
        chs.len() == width + 1,
    ensures
        ({
            let g = gv_apply_all(gv_new(width), put_cmds(chs));
            &&& g.rows.len() >= 2
            &&& g.rows[1][0] == chs[width as int]
        }),
{
    lemma_fill_prefix(width, chs, width);
    let prev = gv_apply_all(gv_new(width), put_cmds(chs.take(width as int)));
    assert(put_cmds(chs) =~= put_cmds(chs.take(width as int)).push(
        TermCmd::PutChar(chs[width as int]),
    ));
    lemma_apply_all_snoc(
        gv_new(width),
        put_cmds(chs.take(width as int)),
        TermCmd::PutChar(chs[width as int]),
    );
    let grown = gv_grown(prev);
    assert(grown.rows =~= seq![row_filled(chs, width, width), blank_row(width)]);
    let g = gv_apply(prev, TermCmd::PutChar(chs[width as int]));
    assert(g.rows[1] == blank_row(width).update(0, chs[width as int]));
    assert(g.rows[1][0] == chs[width as int]);
}

} // verus!
