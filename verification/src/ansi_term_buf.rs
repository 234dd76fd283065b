//! A virtual terminal whose rendered contents keep each row's trailing
//! padding, one line per allocated row.
//!
//! This is the buffer the process supervisor feeds with raw player output;
//! callers that want trailing padding removed ask the supervisor, which trims
//! per row.

use crate::ansi_parser::{AnsiParser, Status, TermCmd, run};
use crate::ansi_term::{GridView, TermState, gv_apply, gv_apply_all, gv_grown, gv_new, gv_put_char,
    gv_line_feed, rows_text, term_after_feed};
use vstd::prelude::*;

verus! {

/// A terminal grid plus the escape decoder that drives it.
pub struct AnsiTermBuf {
    pub state: TermState,
    pub ansi_parser: AnsiParser,
}

impl AnsiTermBuf {
    pub open spec fn wf(&self) -> bool {
        self.state.wf()
    }

    pub fn new(width: u16) -> (r: Self)
        requires
            1 <= width,
        ensures
            r.wf(),
            r.state@ == gv_new(width as nat),
            r.ansi_parser.status == Status::Normal,
            r.ansi_parser.params@ == Seq::<u8>::empty(),
    {
        AnsiTermBuf { state: TermState::new(width), ansi_parser: AnsiParser::default() }
    }

    /// The visible buffer as newline-joined rows, padding kept.
    pub fn contents_to_string(&self) -> (r: String)
        requires
            self.wf(),
        ensures
            r@ == rows_text(self.state@.rows, false),
    {
        self.state.render(false)
    }

    /// One row of cells.
    pub fn line_slice(&self, y: usize) -> (r: &Vec<u8>)
        requires
            y < self.state@.rows.len(),
        ensures
            r@ == self.state@.rows[y as int],
    {
        self.state.line_slice(y)
    }

    /// Drive raw output bytes through the decoder and apply every resulting
    /// command to the grid.
    pub fn feed(&mut self, data: &[u8])
        requires
            old(self).wf(),
        ensures
            final(self).wf(),
            ({
                let r = term_after_feed(
                    old(self).ansi_parser.status,
                    old(self).ansi_parser.params@,
                    old(self).state@,
                    data@,
                );
                &&& final(self).ansi_parser.status == r.0
                &&& final(self).ansi_parser.params@ == r.1
                &&& final(self).state@ == r.2
            }),
    {
        let cmds = self.ansi_parser.advance(data);
        let ghost all = cmds@;
        let ghost pstatus = self.ansi_parser.status;
        let ghost pparams = self.ansi_parser.params@;
        let mut i: usize = 0;
        proof {
            assert(all.take(0) =~= Seq::<TermCmd>::empty());
        }
        while i < cmds.len()
            invariant
                i <= cmds.len(),
                all == cmds@,
                self.ansi_parser.status == pstatus,
                self.ansi_parser.params@ == pparams,
                self.state.wf(),
                self.state@ == gv_apply_all(old(self).state@, all.take(i as int)),
            decreases cmds.len() - i,
        {
            proof {
                crate::ansi_term::lemma_apply_all_snoc(
                    old(self).state@,
                    all.take(i as int),
                    all[i as int],
                );
                assert(all.take(i + 1) =~= all.take(i as int).push(all[i as int]));
            }
            self.state.apply_cmd(cmds[i]);
            i = i + 1;
        }
        proof {
            assert(all.take(all.len() as int) =~= all);
        }
    }

    /// Write one cell at the cursor, wrapping at the last column.
    pub fn put_char(&mut self, ch: u8)
        requires
            old(self).wf(),
        ensures
            final(self).wf(),
            final(self).state@ == gv_put_char(old(self).state@, ch),
            final(self).ansi_parser == old(self).ansi_parser,
    {
        self.state.put_char(ch);
    }

    /// Append one blank row.
    pub fn extend(&mut self)
        requires
            old(self).wf(),
        ensures
            final(self).wf(),
            final(self).state@ == (GridView {
                rows: old(self).state@.rows.push(crate::ansi_term::blank_row(old(self).state@.width)),
                ..old(self).state@
            }),
    {
        self.state.extend();
    }

    /// Append blank rows until the cursor's row is allocated.
    pub fn extend_while_cursor_past(&mut self)
        requires
            old(self).wf(),
        ensures
            final(self).wf(),
            final(self).state@ == gv_grown(old(self).state@),
    {
        self.state.extend_while_cursor_past();
    }

    /// Move the cursor to column zero of the next row.
    pub fn line_feed(&mut self)
        requires
            old(self).wf(),
        ensures
            final(self).wf(),
            final(self).state@ == gv_line_feed(old(self).state@),
    {
        self.state.line_feed();
    }

    /// Clear all grid and decoder state.
    pub fn reset(&mut self)
        requires
            old(self).wf(),
        ensures
            final(self).wf(),
            final(self).state@ == gv_new(old(self).state@.width),
            final(self).ansi_parser.status == Status::Normal,
            final(self).ansi_parser.params@ == Seq::<u8>::empty(),
            final(self).state.width == old(self).state.width,
    {
        self.state.cursor = crate::ansi_term::Cursor { x: 0, y: 0 };
        self.state.lines.clear();
        self.ansi_parser = AnsiParser::default();
        proof {
            assert(self.state@ =~= gv_new(old(self).state@.width));
        }
    }
}

} // verus!
