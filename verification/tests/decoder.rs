use mpvfrog::ansi_parser::{AnsiParser, TermCmd};

fn fresh() -> AnsiParser {
    AnsiParser::default()
}

#[test]
fn plain_bytes_one_command_per_byte() {
    // A byte sequence with no escape byte decodes to exactly one command per
    // byte, in input order.
    let mut p = fresh();
    let cmds = p.advance(b"ab\r\nc");
    assert_eq!(
        cmds,
        vec![
            TermCmd::PutChar(b'a'),
            TermCmd::PutChar(b'b'),
            TermCmd::CarriageReturn,
            TermCmd::LineFeed,
            TermCmd::PutChar(b'c'),
        ]
    );
}

#[test]
fn non_ascii_bytes_are_put_chars() {
    let mut p = fresh();
    let cmds = p.advance(&[0x80, 0xff]);
    assert_eq!(cmds, vec![TermCmd::PutChar(0x80), TermCmd::PutChar(0xff)]);
}

#[test]
fn erase_sequence() {
    let mut p = fresh();
    let cmds = p.advance(b"\x1b[K");
    assert_eq!(cmds, vec![TermCmd::EraseFromCursorToEol]);
}

#[test]
fn cursor_up_with_count() {
    let mut p = fresh();
    let cmds = p.advance(b"\x1b[3A");
    assert_eq!(cmds, vec![TermCmd::CursorUp(3)]);
}

#[test]
fn cursor_up_without_count_defaults_to_one() {
    let mut p = fresh();
    let cmds = p.advance(b"\x1b[A");
    assert_eq!(cmds, vec![TermCmd::CursorUp(1)]);
}

#[test]
fn cursor_up_non_digit_parameter_defaults_to_one() {
    let mut p = fresh();
    let cmds = p.advance(b"\x1b[;A");
    assert_eq!(cmds, vec![TermCmd::CursorUp(1)]);
}

#[test]
fn graphic_rendition_is_discarded() {
    let mut p = fresh();
    let cmds = p.advance(b"\x1b[32ma");
    assert_eq!(cmds, vec![TermCmd::PutChar(b'a')]);
}

#[test]
fn equals_escape_is_ignored() {
    let mut p = fresh();
    let cmds = p.advance(b"\x1b=x");
    assert_eq!(cmds, vec![TermCmd::PutChar(b'x')]);
}

#[test]
fn unknown_escape_byte_resynchronizes() {
    // A protocol violation after the escape byte must not corrupt the bytes
    // that follow.
    let mut p = fresh();
    let cmds = p.advance(b"\x1bqab");
    assert_eq!(cmds, vec![TermCmd::PutChar(b'a'), TermCmd::PutChar(b'b')]);
}

#[test]
fn unknown_terminator_emits_nothing() {
    let mut p = fresh();
    let cmds = p.advance(b"\x1b[5Xa");
    assert_eq!(cmds, vec![TermCmd::PutChar(b'a')]);
}

#[test]
fn sequence_split_across_reads() {
    // Partial-sequence state is kept across calls.
    let mut p = fresh();
    let first = p.advance(b"\x1b[");
    assert_eq!(first, vec![]);
    let second = p.advance(b"2A");
    assert_eq!(second, vec![TermCmd::CursorUp(2)]);
}

#[test]
fn empty_input_emits_nothing() {
    let mut p = fresh();
    assert_eq!(p.advance(b""), vec![]);
}
