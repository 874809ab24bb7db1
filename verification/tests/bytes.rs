use io_starttls::model::{COMMAND, TAG};
use io_starttls::io::Output;
use io_starttls::scan::{has_line, has_tagged_line, LINE_FEED};
use io_starttls::stream::DEFAULT_CAPACITY;

#[test]
fn the_command_and_its_tag() {
    assert_eq!(COMMAND.as_bytes(), b"NGC6543 STARTTLS\r\n");
    assert_eq!(TAG.as_bytes(), b"NGC6543 ");
    assert!(COMMAND.starts_with(TAG));
    assert_eq!(LINE_FEED, b'\n');
    assert_eq!(DEFAULT_CAPACITY, 8 * 1024);
}

#[test]
fn output_bytes_are_the_counted_prefix() {
    let out = Output::new(vec![1, 2, 3, 0, 0], 3).unwrap();
    assert_eq!(out.bytes(), &[1u8, 2, 3][..]);
    assert_eq!(out.buffer(), &[1u8, 2, 3, 0, 0][..]);
    assert_eq!(out.bytes_count(), 3);
    assert_eq!(out.into_buffer(), vec![1, 2, 3, 0, 0]);

    let none = Output::new(vec![1, 2], 0).unwrap();
    assert_eq!(none.bytes(), &[0u8; 0][..]);

    let all = Output::new(vec![1, 2], 2).unwrap();
    assert_eq!(all.bytes(), &[1u8, 2][..]);

    let empty = Output::new(vec![], 0).unwrap();
    assert_eq!(empty.bytes(), &[0u8; 0][..]);
}

#[test]
fn an_output_cannot_count_more_than_its_buffer_has() {
    assert_eq!(Output::new(vec![1, 2], 3), None);
    assert_eq!(Output::new(vec![], 1), None);
    assert_eq!(Output::new(vec![0; 8], usize::MAX), None);
}

#[test]
fn a_line_needs_a_line_feed() {
    assert!(!has_line(b""));
    assert!(!has_line(b"* OK ready\r"));
    assert!(has_line(b"* OK ready\r\n"));
    assert!(has_line(b"\n"));
    assert!(has_line(b"a\nb"));
}

#[test]
fn a_tagged_line_needs_the_tag_and_a_line_feed_after_it() {
    let tag = b"NGC6543 ";
    assert!(!has_tagged_line(b"", tag));
    assert!(!has_tagged_line(b"* OK\r\n", tag));
    assert!(!has_tagged_line(b"NGC6543", tag));
    assert!(!has_tagged_line(b"NGC6543\n", tag));
    assert!(!has_tagged_line(b"NGC6543 OK", tag));
    assert!(!has_tagged_line(b"\nNGC6543 OK", tag));
    assert!(has_tagged_line(b"NGC6543 \n", tag));
    assert!(has_tagged_line(b"NGC6543 OK\r\n", tag));
    assert!(has_tagged_line(b"* noise\r\nNGC6543 OK\r\n", tag));
    assert!(has_tagged_line(b"xNGC6543 OK\r\ntrailing", tag));
}

#[test]
fn a_tagged_line_in_a_long_buffer() {
    let tag = b"NGC6543 ";
    let mut bytes = vec![b'.'; 300];
    assert!(!has_tagged_line(&bytes, tag));
    bytes.extend_from_slice(b"NGC6543 OK");
    bytes.extend_from_slice(&[b'.'; 200]);
    assert!(!has_tagged_line(&bytes, tag));
    bytes.push(b'\n');
    assert!(has_tagged_line(&bytes, tag));
}
