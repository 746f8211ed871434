use eomi_weact::uart_line::LineReader;

fn feed(reader: &mut LineReader, bytes: &[u8]) -> Vec<Vec<u8>> {
    let mut out = Vec::new();
    for &b in bytes {
        if let Some(m) = reader.receive(b) {
            out.push(m.as_slice().to_vec());
        }
    }
    out
}

#[test]
fn line_is_handed_over_at_carriage_return() {
    let mut r = LineReader::new();
    assert_eq!(feed(&mut r, b"hello\r"), vec![b"hello".to_vec()]);
}

#[test]
fn nothing_is_handed_over_before_carriage_return() {
    let mut r = LineReader::new();
    assert!(feed(&mut r, b"abc\n").is_empty());
    assert_eq!(feed(&mut r, b"\r"), vec![b"abc\n".to_vec()]);
}

#[test]
fn reader_starts_over_after_a_line() {
    let mut r = LineReader::new();
    assert_eq!(feed(&mut r, b"one\rtwo\r"), vec![b"one".to_vec(), b"two".to_vec()]);
}

#[test]
fn empty_line_gives_empty_message() {
    let mut r = LineReader::new();
    assert_eq!(feed(&mut r, b"\r"), vec![Vec::<u8>::new()]);
}

#[test]
fn sixteen_bytes_fit_in_a_message() {
    let mut r = LineReader::new();
    assert_eq!(feed(&mut r, b"0123456789abcdef\r"), vec![b"0123456789abcdef".to_vec()]);
}

#[test]
fn seventeen_bytes_give_an_empty_message() {
    let mut r = LineReader::new();
    assert_eq!(feed(&mut r, b"0123456789abcdefg\r"), vec![Vec::<u8>::new()]);
}

#[test]
fn bytes_beyond_line_capacity_are_dropped() {
    let mut r = LineReader::new();
    let long = [b'x'; 40];
    assert!(feed(&mut r, &long).is_empty());
    assert_eq!(feed(&mut r, b"\r"), vec![Vec::<u8>::new()]);
    assert_eq!(feed(&mut r, b"ok\r"), vec![b"ok".to_vec()]);
}

#[test]
fn non_ascii_bytes_are_ignored() {
    let mut r = LineReader::new();
    assert_eq!(feed(&mut r, &[b'a', 0xc3, 0xa9, b'b', 0xff, b'\r']), vec![b"ab".to_vec()]);
}

#[test]
fn run_of_lines_is_split_at_carriage_returns() {
    let mut r = LineReader::new();
    let mut run = b"one\r".to_vec();
    run.extend_from_slice(&[0xe9, b't', b'w', 0x80, b'o', b'\r']);
    run.extend_from_slice(&[b'z'; 20]);
    run.extend_from_slice(b"\rtail");
    assert_eq!(feed(&mut r, &run), vec![b"one".to_vec(), b"two".to_vec(), Vec::new()]);
    assert_eq!(feed(&mut r, b"\r"), vec![b"tail".to_vec()]);
}
