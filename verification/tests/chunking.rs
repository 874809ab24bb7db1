use io_starttls::imap::UpgradeTls;
use io_starttls::io::{Io, Output};

const COMMAND: &[u8] = b"NGC6543 STARTTLS\r\n";

fn read_of(chunk: &[u8], len: usize) -> Option<Io> {
    let mut buffer = vec![0; len];
    buffer[..chunk.len()].copy_from_slice(chunk);
    Some(Io::Read(Ok(Output::new(buffer, chunk.len()).unwrap())))
}

fn awaiting_response() -> UpgradeTls {
    let mut starttls = UpgradeTls::new().with_discard_greeting(false);
    let bytes = match starttls.resume(None) {
        Err(Io::Write(Err(bytes))) => bytes,
        other => panic!("expected a write request, got {other:?}"),
    };
    let bytes_count = bytes.len();
    let done = Some(Io::Write(Ok(Output::new(bytes, bytes_count).unwrap())));
    assert_eq!(starttls.resume(done), Err(Io::Read(Err(vec![0; 8192]))));
    starttls
}

#[test]
fn greeting_in_one_read_or_in_many_ends_in_the_same_write() {
    let mut whole = UpgradeTls::new();
    assert_eq!(whole.resume(None), Err(Io::Read(Err(vec![0; 8192]))));
    let at_once = whole.resume(read_of(b"* OK IMAP4rev1 ready\r\n", 8192));

    let mut split = UpgradeTls::new();
    assert_eq!(split.resume(None), Err(Io::Read(Err(vec![0; 8192]))));
    assert_eq!(split.resume(read_of(b"* OK IM", 16)), Err(Io::Read(Err(vec![0; 16]))));
    assert_eq!(split.resume(read_of(b"", 4)), Err(Io::Read(Err(vec![0; 4]))));
    assert_eq!(split.resume(read_of(b"AP4rev1 ready\r", 32)), Err(Io::Read(Err(vec![0; 32]))));
    let in_pieces = split.resume(read_of(b"\n", 1));

    assert_eq!(at_once, Err(Io::Write(Err(COMMAND.to_vec()))));
    assert_eq!(in_pieces, at_once);
}

#[test]
fn greeting_byte_by_byte() {
    let greeting = b"* OK hi\r\n";
    let mut starttls = UpgradeTls::new();
    assert_eq!(starttls.resume(None), Err(Io::Read(Err(vec![0; 8192]))));
    for byte in &greeting[..greeting.len() - 1] {
        assert_eq!(starttls.resume(read_of(&[*byte], 1)), Err(Io::Read(Err(vec![0; 1]))));
    }
    assert_eq!(starttls.resume(read_of(b"\n", 1)), Err(Io::Write(Err(COMMAND.to_vec()))));
}

#[test]
fn greeting_ends_at_its_first_line_feed() {
    let mut starttls = UpgradeTls::new();
    assert_eq!(starttls.resume(None), Err(Io::Read(Err(vec![0; 8192]))));
    let res = starttls.resume(read_of(b"\n* more that nobody reads", 64));
    assert_eq!(res, Err(Io::Write(Err(COMMAND.to_vec()))));
}

#[test]
fn bytes_past_the_count_are_not_received() {
    let mut starttls = UpgradeTls::new();
    assert_eq!(starttls.resume(None), Err(Io::Read(Err(vec![0; 8192]))));
    let stale = Some(Io::Read(Ok(Output::new(b"* OK\r\n".to_vec(), 5).unwrap())));
    assert_eq!(starttls.resume(stale), Err(Io::Read(Err(vec![0; 6]))));
    assert_eq!(starttls.resume(read_of(b"\n", 6)), Err(Io::Write(Err(COMMAND.to_vec()))));
}

#[test]
fn the_buffer_of_a_read_comes_back_zeroed() {
    let mut starttls = UpgradeTls::new();
    assert_eq!(starttls.resume(None), Err(Io::Read(Err(vec![0; 8192]))));
    let dirty = Some(Io::Read(Ok(Output::new(vec![7; 12], 12).unwrap())));
    assert_eq!(starttls.resume(dirty), Err(Io::Read(Err(vec![0; 12]))));
}

#[test]
fn response_split_anywhere_completes_with_the_last_piece() {
    let response = b"NGC6543 OK Begin TLS now\r\n";
    for cut in 0..=response.len() {
        let mut starttls = awaiting_response();
        let (head, tail) = response.split_at(cut);
        let first = starttls.resume(read_of(head, 64));
        if cut == response.len() {
            assert_eq!(first, Ok(()));
        } else {
            assert_eq!(first, Err(Io::Read(Err(vec![0; 64]))));
            assert_eq!(starttls.resume(read_of(tail, 64)), Ok(()));
        }
    }
}

#[test]
fn response_waits_for_the_line_feed_after_the_tag() {
    let mut starttls = awaiting_response();
    assert_eq!(starttls.resume(read_of(b"NGC6543 OK", 32)), Err(Io::Read(Err(vec![0; 32]))));
    assert_eq!(starttls.resume(read_of(b" go ahead\r", 32)), Err(Io::Read(Err(vec![0; 32]))));
    assert_eq!(starttls.resume(read_of(b"\n", 32)), Ok(()));
}

#[test]
fn noise_before_the_tag_does_not_complete() {
    let mut starttls = awaiting_response();
    let wanted = Err(Io::Read(Err(vec![0; 64])));
    assert_eq!(starttls.resume(read_of(b"* CAPABILITY IMAP4rev1\r\n", 64)), wanted);
    assert_eq!(starttls.resume(read_of(b"* OK still plain\r\n", 64)), wanted);
    assert_eq!(starttls.resume(read_of(b"NGC6543x y\r\nNGC 6543 \r\n", 64)), wanted);
    assert_eq!(starttls.resume(read_of(b"NGC6543 OK\r\n", 64)), Ok(()));
}

#[test]
fn a_line_feed_before_the_tag_does_not_end_the_tagged_line() {
    let mut starttls = awaiting_response();
    assert_eq!(starttls.resume(read_of(b"\r\n\r\nNGC6543 ", 32)), Err(Io::Read(Err(vec![0; 32]))));
    assert_eq!(starttls.resume(read_of(b"\n", 32)), Ok(()));
}

#[test]
fn the_tag_is_found_in_the_middle_of_a_line() {
    let mut starttls = awaiting_response();
    assert_eq!(starttls.resume(read_of(b"* said NGC6543 OK\r\n", 32)), Ok(()));
}

#[test]
fn greeting_bytes_are_not_taken_for_the_response() {
    let mut starttls = UpgradeTls::new();
    assert_eq!(starttls.resume(None), Err(Io::Read(Err(vec![0; 8192]))));
    let bytes = match starttls.resume(read_of(b"NGC6543 OK early\r\n", 32)) {
        Err(Io::Write(Err(bytes))) => bytes,
        other => panic!("expected a write request, got {other:?}"),
    };
    let bytes_count = bytes.len();
    let done = Some(Io::Write(Ok(Output::new(bytes, bytes_count).unwrap())));
    assert_eq!(starttls.resume(done), Err(Io::Read(Err(vec![0; 8192]))));
    assert_eq!(starttls.resume(read_of(b"* nothing yet\r\n", 32)), Err(Io::Read(Err(vec![0; 32]))));
    assert_eq!(starttls.resume(read_of(b"NGC6543 OK\r\n", 32)), Ok(()));
}

#[test]
fn a_late_change_of_mind_keeps_the_received_bytes() {
    let mut starttls = awaiting_response();
    assert_eq!(starttls.resume(read_of(b"* noise\r\n", 16)), Err(Io::Read(Err(vec![0; 16]))));

    starttls.discard_greeting(true);
    assert_eq!(starttls.resume(None), Err(Io::Read(Err(vec![0; 8192]))));
    let res = starttls.resume(read_of(b"no line feed here", 32));
    assert_eq!(res, Err(Io::Write(Err(COMMAND.to_vec()))));
}
