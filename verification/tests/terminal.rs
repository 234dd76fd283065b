use mpvfrog::ansi_term::AnsiTerm;
use mpvfrog::ansi_term_buf::AnsiTermBuf;

#[test]
fn carriage_return_line_feed_rows() {
    // Feeding "A\r\nB" into a fresh grid yields two rows whose trimmed text
    // is "A" and "B".
    let mut term = AnsiTerm::new(10);
    term.feed(b"A\r\nB");
    assert_eq!(term.contents_to_string(), "A\nB\n");
}

#[test]
fn fill_row_then_wrap() {
    // Exactly filling one row and writing one more character produces a grid
    // with at least two rows, the extra character at column zero of row one.
    let mut term = AnsiTermBuf::new(3);
    term.feed(b"abcd");
    assert!(term.state.lines.len() >= 2);
    assert_eq!(term.line_slice(1)[0], b'd');
    assert_eq!(term.contents_to_string(), "abc\nd  \n");
}

#[test]
fn wrap_at_last_column_does_not_skip_a_row() {
    let mut term = AnsiTerm::new(2);
    term.feed(b"abc");
    assert_eq!(term.contents_to_string(), "ab\nc\n");
}

#[test]
fn cursor_up_past_top_lands_on_row_zero() {
    // A cursor-up count larger than the current row never panics and leaves
    // the cursor on row zero.
    let mut term = AnsiTerm::new(5);
    term.feed(b"ab\n\n\x1b[9Ax");
    assert_eq!(term.contents_to_string(), "xb\n");
}

#[test]
fn erase_to_end_of_line() {
    let mut term = AnsiTerm::new(5);
    term.feed(b"abc\r\x1b[K");
    assert_eq!(term.contents_to_string(), "\n");
}

#[test]
fn erase_beyond_allocation_is_a_no_op() {
    let mut term = AnsiTerm::new(5);
    term.feed(b"\n\x1b[K");
    assert_eq!(term.contents_to_string(), "");
}

#[test]
fn reset_behaves_like_fresh() {
    // reset() followed by any feed() behaves identically to a freshly
    // constructed grid of the same width.
    let mut used = AnsiTerm::new(4);
    used.feed(b"junk\x1b[1A more junk\r\nlines");
    used.reset();
    used.feed(b"Z\nw");

    let mut fresh = AnsiTerm::new(4);
    fresh.feed(b"Z\nw");

    assert_eq!(used.contents_to_string(), fresh.contents_to_string());
}

#[test]
fn reset_clears_contents() {
    let mut term = AnsiTerm::new(4);
    term.feed(b"abc");
    term.reset();
    assert_eq!(term.contents_to_string(), "");
}

#[test]
fn buf_contents_keep_padding() {
    let mut term = AnsiTermBuf::new(3);
    term.feed(b"a");
    assert_eq!(term.contents_to_string(), "a  \n");
}

#[test]
fn buf_reset_then_feed_like_fresh() {
    let mut used = AnsiTermBuf::new(3);
    used.feed(b"xyz123");
    used.reset();
    used.feed(b"ok");
    let mut fresh = AnsiTermBuf::new(3);
    fresh.feed(b"ok");
    assert_eq!(used.contents_to_string(), fresh.contents_to_string());
}

#[test]
fn carriage_return_overwrites() {
    let mut term = AnsiTerm::new(8);
    term.feed(b"abc\rX");
    assert_eq!(term.contents_to_string(), "Xbc\n");
}

#[test]
fn line_feed_grows_lazily() {
    // Rows appear only when something is written to them.
    let mut term = AnsiTermBuf::new(3);
    term.feed(b"\n\n");
    assert_eq!(term.state.lines.len(), 0);
    term.feed(b"x");
    assert_eq!(term.state.lines.len(), 3);
    assert_eq!(term.contents_to_string(), "   \n   \nx  \n");
}
