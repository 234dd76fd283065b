//! Byte-at-a-time decoder for the small set of terminal escape sequences the
//! supervised player emits on its console.
//!
//! The decoder is a three-state machine. Unknown escape sequences are dropped
//! without disturbing the decoding of the bytes that follow: every terminator
//! byte unconditionally returns the machine to its normal state, so corrupted
//! console output can never poison the rest of the stream.

use vstd::prelude::*;

verus! {

/// The escape byte that introduces a control sequence.
pub const ESC: u8 = 0x1b;

/// One decoded terminal operation, produced by [`AnsiParser::advance`] and
/// consumed by the terminal grid.
#[derive(Clone, Copy, PartialEq, Eq, Debug, Structural)]
pub enum TermCmd {
    /// Write this byte at the cursor and advance the cursor.
    PutChar(u8),
    /// Move the cursor to column zero of the current row.
    CarriageReturn,
    /// Move the cursor to column zero of the next row.
    LineFeed,
    /// Move the cursor up this many rows, stopping at row zero.
    CursorUp(u8),
    /// Erase from the cursor to the end of the current row.
    EraseFromCursorToEol,
}

/// Decoder state. `SawEscape` means the last byte was [`ESC`];
/// `InControlSequence` means the decoder is inside an `ESC [` sequence and is
/// accumulating parameter bytes.
#[derive(Clone, Copy, PartialEq, Eq, Debug, Structural)]
pub enum Status {
    Normal,
    SawEscape,
    InControlSequence,
}

/// The decoder itself: the current state plus the parameter bytes of the
/// control sequence in progress, kept across calls so that sequences split
/// over read boundaries decode correctly.
pub struct AnsiParser {
    pub status: Status,
    pub params: Vec<u8>,
}

/// The command a single byte decodes to when the decoder is in the normal
/// state and the byte is not [`ESC`].
pub open spec fn byte_cmd(b: u8) -> TermCmd {
    if b == 0x0d {
        TermCmd::CarriageReturn
    } else if b == 0x0a {
        TermCmd::LineFeed
    } else {
        TermCmd::PutChar(b)
    }
}

/// The cursor-up count encoded by the parameter bytes: the first parameter
/// byte read as a decimal digit, or 1 if there is none (or it is no digit).
pub open spec fn cursor_up_count(params: Seq<u8>) -> u8 {
    if params.len() > 0 && 0x30 <= params[0] && params[0] <= 0x39 {
        (params[0] - 0x30) as u8
    } else {
        1u8
    }
}

/// One step of the decoder state machine: the state and parameter buffer
/// after consuming `b`, and the commands emitted for `b`.
pub open spec fn step(st: Status, params: Seq<u8>, b: u8) -> (Status, Seq<u8>, Seq<TermCmd>) {
    match st {
        Status::Normal => {
            if b == ESC {
                (Status::SawEscape, params, seq![])
            } else {
                (Status::Normal, params, seq![byte_cmd(b)])
            }
        },
        Status::SawEscape => {
            if b == 0x5b {
                // '[': a control sequence begins with a fresh parameter buffer.
                (Status::InControlSequence, Seq::empty(), seq![])
            } else {
                // '=' is a mode toggle the grid does not care about; any other
                // byte is a protocol violation. Both resynchronize to Normal.
                (Status::Normal, params, seq![])
            }
        },
        Status::InControlSequence => {
            if 0x30 <= b && b <= 0x3f {
                (Status::InControlSequence, params.push(b), seq![])
            } else if 0x40 <= b && b <= 0x7e {
                // A terminator byte always ends the sequence, recognized or not.
                let out = if b == 0x4b {
                    seq![TermCmd::EraseFromCursorToEol]
                } else if b == 0x41 {
                    seq![TermCmd::CursorUp(cursor_up_count(params))]
                } else {
                    // 'm' (graphic rendition) is recognized and deliberately
                    // discarded; anything else is unhandled.
                    seq![]
                };
                (Status::Normal, Seq::empty(), out)
            } else {
                // A byte outside both ranges is unexpected: stay in the
                // sequence and wait for a terminator.
                (Status::InControlSequence, params, seq![])
            }
        },
    }
}

/// The decoder run over a whole byte sequence: final state, final parameter
/// buffer, and every command emitted, in order.
pub open spec fn run(st: Status, params: Seq<u8>, bytes: Seq<u8>) -> (Status, Seq<u8>, Seq<TermCmd>)
    decreases bytes.len(),
{
    if bytes.len() == 0 {
        (st, params, seq![])
    } else {
        let first = step(st, params, bytes[0]);
        let rest = run(first.0, first.1, bytes.drop_first());
        (rest.0, rest.1, first.2 + rest.2)
    }
}

/// Running over `bytes.push(b)` is running over `bytes` and then stepping on `b`.
pub proof fn lemma_run_snoc(st: Status, params: Seq<u8>, bytes: Seq<u8>, b: u8)
    ensures
        ({
            let r = run(st, params, bytes);
            let s = step(r.0, r.1, b);
            run(st, params, bytes.push(b)) == (s.0, s.1, r.2 + s.2)
        }),
    decreases bytes.len(),
{
    let r = run(st, params, bytes);
    let s = step(r.0, r.1, b);
    if bytes.len() == 0 {
        reveal_with_fuel(run, 3);
        assert(bytes.push(b)[0] == b);
        assert(bytes.push(b).drop_first() =~= Seq::<u8>::empty());
        assert(run(st, params, bytes.push(b)).2 =~= r.2 + s.2);
    } else {
        let first = step(st, params, bytes[0]);
        assert(bytes.push(b)[0] == bytes[0]);
        assert(bytes.push(b).drop_first() =~= bytes.drop_first().push(b));
        lemma_run_snoc(first.0, first.1, bytes.drop_first(), b);
        let rr = run(first.0, first.1, bytes.drop_first());
        let ss = step(rr.0, rr.1, b);
        assert(run(st, params, bytes.push(b)) == (ss.0, ss.1, first.2 + (rr.2 + ss.2)));
        assert(first.2 + (rr.2 + ss.2) =~= (first.2 + rr.2) + ss.2);
        assert(run(st, params, bytes.push(b)).2 =~= r.2 + s.2);
    }
}

impl AnsiParser {
    /// Consume a slice of raw output bytes and return the terminal commands
    /// they decode to, keeping partial-sequence state for the next call.
    pub fn advance(&mut self, bytes: &[u8]) -> (cmds: Vec<TermCmd>)
        ensures
            ({
                let r = run(old(self).status, old(self).params@, bytes@);
                &&& final(self).status == r.0
                &&& final(self).params@ == r.1
                &&& cmds@ == r.2
            }),
    {
        let mut cmds: Vec<TermCmd> = Vec::new();
        let mut i: usize = 0;
        proof {
            assert(bytes@.take(0) =~= Seq::<u8>::empty());
        }
        while i < bytes.len()
            invariant
                i <= bytes.len(),
                run(old(self).status, old(self).params@, bytes@.take(i as int)) == (
                    self.status,
                    self.params@,
                    cmds@,
                ),
            decreases bytes.len() - i,
        {
            let b: u8 = bytes[i];
            proof {
                lemma_run_snoc(old(self).status, old(self).params@, bytes@.take(i as int), b);
                assert(bytes@.take(i + 1) =~= bytes@.take(i as int).push(b));
            }
            let ghost prev_cmds = cmds@;
            match self.status {
                Status::Normal => {
                    if b == ESC {
                        self.status = Status::SawEscape;
                    } else if b == 0x0d {
                        cmds.push(TermCmd::CarriageReturn);
                    } else if b == 0x0a {
                        cmds.push(TermCmd::LineFeed);
                    } else {
                        cmds.push(TermCmd::PutChar(b));
                    }
                },
                Status::SawEscape => {
                    if b == 0x5b {
                        self.status = Status::InControlSequence;
                        self.params.clear();
                    } else {
                        self.status = Status::Normal;
                    }
                },
                Status::InControlSequence => {
                    if 0x30 <= b && b <= 0x3f {
                        self.params.push(b);
                    } else if 0x40 <= b && b <= 0x7e {
                        if b == 0x4b {
                            cmds.push(TermCmd::EraseFromCursorToEol);
                        } else if b == 0x41 {
                            let n: u8 = if self.params.len() > 0 {
                                let p: u8 = self.params[0];
                                if 0x30 <= p && p <= 0x39 {
                                    p - 0x30
                                } else {
                                    1
                                }
                            } else {
                                1
                            };
                            cmds.push(TermCmd::CursorUp(n));
                        }
                        self.status = Status::Normal;
                        self.params.clear();
                    }
                },
            }
            proof {
                let r = run(old(self).status, old(self).params@, bytes@.take(i as int));
                let s = step(r.0, r.1, b);
                assert(cmds@ =~= prev_cmds + s.2);
            }
            i = i + 1;
        }
        proof {
            assert(bytes@.take(bytes@.len() as int) =~= bytes@);
        }
        cmds
    }
}

impl Default for AnsiParser {
    /// A fresh decoder: normal state, empty parameter buffer.
    fn default() -> (r: Self)
        ensures
            r.status == Status::Normal,
            r.params@ == Seq::<u8>::empty(),
    {
        AnsiParser { status: Status::Normal, params: Vec::new() }
    }
}

/// Over a byte sequence that contains no [`ESC`] byte, a decoder in the
/// normal state emits exactly one `PutChar`, `CarriageReturn` or `LineFeed`
/// command per input byte, in input order, and ends where it began.
pub proof fn lemma_no_escape_one_cmd_per_byte(params: Seq<u8>, bytes: Seq<u8>)
    requires
        forall|i: int| 0 <= i < bytes.len() ==> bytes[i] != ESC,
    ensures
        ({
            let r = run(Status::Normal, params, bytes);
            &&& r.0 == Status::Normal
            &&& r.1 == params
            &&& r.2.len() == bytes.len()
            &&& forall|i: int| 0 <= i < bytes.len() ==> r.2[i] == byte_cmd(bytes[i])
        }),
    decreases bytes.len(),
{
    if bytes.len() == 0 {
    } else {
        let first = step(Status::Normal, params, bytes[0]);
        lemma_no_escape_one_cmd_per_byte(params, bytes.drop_first());
        let rest = run(first.0, first.1, bytes.drop_first());
        assert(forall|i: int| 0 <= i < bytes.drop_first().len()
            ==> bytes.drop_first()[i] == bytes[i + 1]);
    }
}

} // verus!
