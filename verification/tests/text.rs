use rurt::bytes::{bytes_eq, copy_bytes, count_byte, split_bytes, strip_byte, to_decimal};
use rurt::file_attrs::hidden;
use rurt::line_stop::{LineStopFmtWrite, LineStopIoWrite};
use std::fmt::Write as FmtWrite;
use std::io::Write as IoWrite;

#[test]
fn count_byte_counts() {
    assert_eq!(count_byte(b"", b'\n'), 0);
    assert_eq!(count_byte(b"a\nb\n\nc", b'\n'), 3);
    assert_eq!(count_byte(b"aaa", b'a'), 3);
    assert_eq!(count_byte(b"aaa", b'b'), 0);
}

#[test]
fn bytes_eq_compares() {
    assert!(bytes_eq(b"", b""));
    assert!(bytes_eq(b"abc", b"abc"));
    assert!(!bytes_eq(b"abc", b"abd"));
    assert!(!bytes_eq(b"abc", b"ab"));
    assert!(!bytes_eq(b"", b"a"));
    assert_eq!(copy_bytes(b"xyz"), b"xyz".to_vec());
}

#[test]
fn strip_byte_leaves_the_rest_in_order() {
    assert_eq!(strip_byte(b"a\r\nb\r\n", b'\r'), b"a\nb\n".to_vec());
    assert_eq!(strip_byte(b"\r\r", b'\r'), Vec::<u8>::new());
    assert_eq!(strip_byte(b"abc", b'\r'), b"abc".to_vec());
}

#[test]
fn split_has_one_part_more_than_separators() {
    assert_eq!(split_bytes(b"", b'\n'), vec![Vec::<u8>::new()]);
    assert_eq!(split_bytes(b"a", b'\n'), vec![b"a".to_vec()]);
    assert_eq!(split_bytes(b"a\nb", b'\n'), vec![b"a".to_vec(), b"b".to_vec()]);
    assert_eq!(split_bytes(b"a\n", b'\n'), vec![b"a".to_vec(), Vec::new()]);
    assert_eq!(
        split_bytes(b"\n\nx", b'\n'),
        vec![Vec::new(), Vec::new(), b"x".to_vec()]
    );
}

#[test]
fn decimal_writes_numbers() {
    assert_eq!(to_decimal(0), b"0".to_vec());
    assert_eq!(to_decimal(7), b"7".to_vec());
    assert_eq!(to_decimal(10), b"10".to_vec());
    assert_eq!(to_decimal(120), b"120".to_vec());
    assert_eq!(to_decimal(9007199254740993), b"9007199254740993".to_vec());
    assert_eq!(to_decimal(usize::MAX), usize::MAX.to_string().into_bytes());
}

#[test]
fn hidden_names_begin_with_a_dot() {
    assert!(hidden(b".git"));
    assert!(hidden(b"."));
    assert!(!hidden(b"a.txt"));
    assert!(!hidden(b""));
}

#[test]
fn text_sink_counts_lines_and_says_when_to_stop() {
    let mut sink = LineStopFmtWrite::new(3);
    assert_eq!(sink.remaining_lines(), 3);
    assert!(!sink.accept("one\n"));
    assert_eq!(sink.remaining_lines(), 2);
    assert!(!sink.accept("no line feed"));
    assert_eq!(sink.remaining_lines(), 2);
    assert!(!sink.accept("\n"));
    assert_eq!(sink.remaining_lines(), 1);
    // the write that uses up the budget is taken whole
    assert!(sink.accept("three\nfour\nfive\n"));
    assert_eq!(sink.remaining_lines(), 0);
    assert_eq!(sink.inner, "one\nno line feed\nthree\nfour\nfive\n");
    // and so is every write after it
    assert!(sink.accept("more"));
    assert_eq!(sink.into_inner(), "one\nno line feed\nthree\nfour\nfive\nmore");
}

#[test]
fn text_sink_without_budget_is_full_at_once() {
    let mut sink = LineStopFmtWrite::new(0);
    assert!(sink.accept("x"));
    assert_eq!(sink.inner, "x");
}

#[test]
fn text_sink_stops_a_formatter() {
    let mut sink = LineStopFmtWrite::new(2);
    assert!(sink.write_str("a\n").is_ok());
    assert!(sink.write_str("b\n").is_err());
    assert!(sink.write_char('5').is_err());
    assert_eq!(sink.inner, "a\nb\n5");
    assert_eq!(sink.remaining_lines(), 0);
}

#[test]
fn text_sink_counts_line_feeds_among_wide_characters() {
    let mut sink = LineStopFmtWrite::new(2);
    assert!(!sink.accept("\u{00e9}\u{4e2d}\n\u{1f600}"));
    assert_eq!(sink.remaining_lines(), 1);
}

#[test]
fn byte_sink_counts_lines_and_says_when_to_stop() {
    let mut sink = LineStopIoWrite::new(2);
    assert_eq!(sink.remaining_lines(), 2);
    assert!(!sink.accept(b"one\n"));
    assert_eq!(sink.remaining_lines(), 1);
    assert!(sink.accept(b"two\nthree\n"));
    assert_eq!(sink.remaining_lines(), 0);
    assert_eq!(sink.inner, b"one\ntwo\nthree\n".to_vec());
    assert_eq!(sink.into_inner(), b"one\ntwo\nthree\n".to_vec());
}

#[test]
fn byte_sink_stops_a_writer_with_a_broken_pipe() {
    let mut sink = LineStopIoWrite::new(2);
    assert_eq!(sink.write(b"abc\n").unwrap(), 4);
    assert!(sink.flush().is_ok());
    let stop = sink.write(b"d\n").unwrap_err();
    assert_eq!(stop.kind(), std::io::ErrorKind::BrokenPipe);
    assert_eq!(sink.inner, b"abc\nd\n".to_vec());
    assert!(sink.write_all(b"more").is_err());
}
