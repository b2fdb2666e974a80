use rabbit::client::tunnel_cluster::id_line;
use rabbit::server::tunnel_server::{tunnel_id_from_bytes, IdLineReader, IdLineStep};

fn read_line(bytes: &[u8]) -> (IdLineStep, IdLineReader) {
    let mut reader = IdLineReader::new();
    for &b in bytes {
        let step = reader.push(b);
        if step != IdLineStep::NeedMore {
            return (step, reader);
        }
    }
    (IdLineStep::NeedMore, reader)
}

#[test]
fn id_line_is_read_back_as_the_id() {
    let line = id_line("myapp");
    assert_eq!(line, b"myapp\n".to_vec());
    let (step, reader) = read_line(&line);
    assert_eq!(step, IdLineStep::Complete);
    assert_eq!(reader.id(), "myapp");
}

#[test]
fn id_line_without_newline_needs_more() {
    let (step, _) = read_line(b"myapp");
    assert_eq!(step, IdLineStep::NeedMore);
}

#[test]
fn id_line_of_hundred_bytes_is_accepted() {
    let mut line = vec![b'a'; 100];
    line.push(b'\n');
    let (step, reader) = read_line(&line);
    assert_eq!(step, IdLineStep::Complete);
    assert_eq!(reader.id().len(), 100);
}

#[test]
fn id_line_over_hundred_bytes_is_too_long() {
    let line = vec![b'a'; 101];
    let (step, _) = read_line(&line);
    assert_eq!(step, IdLineStep::TooLong);
}

#[test]
fn id_is_trimmed() {
    let (step, reader) = read_line(b"  myapp\r\n");
    assert_eq!(step, IdLineStep::Complete);
    assert_eq!(reader.id(), "myapp");
}

#[test]
fn invalid_utf8_is_replaced() {
    assert_eq!(tunnel_id_from_bytes(b"ab\xffcd"), "ab\u{fffd}cd");
    assert_eq!(tunnel_id_from_bytes(b"\t\xc3\xa9t\xc3\xa9 "), "\u{e9}t\u{e9}");
}

#[test]
fn long_line_refused_whatever_follows() {
    let mut line = vec![b'x'; 101];
    line.extend_from_slice(b"\nmore");
    let (step, _) = read_line(&line);
    assert_eq!(step, IdLineStep::TooLong);
}
