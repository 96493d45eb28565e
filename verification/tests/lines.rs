use sidecar_rpc::demux::LineBuffer;

fn bytes(s: &str) -> Vec<u8> {
    s.as_bytes().to_vec()
}

#[test]
fn single_line_one_chunk() {
    let mut buf = LineBuffer::new();
    let lines = buf.push_chunk(&bytes("hello\n"));
    assert_eq!(lines, vec![bytes("hello")]);
}

#[test]
fn line_split_across_chunks() {
    let mut buf = LineBuffer::new();
    assert_eq!(buf.push_chunk(&bytes("hel")), Vec::<Vec<u8>>::new());
    assert_eq!(buf.push_chunk(&bytes("lo\nwor")), vec![bytes("hello")]);
    assert_eq!(buf.push_chunk(&bytes("ld\n")), vec![bytes("world")]);
}

#[test]
fn multiple_lines_one_chunk() {
    let mut buf = LineBuffer::new();
    let lines = buf.push_chunk(&bytes("a\nb\nc\n"));
    assert_eq!(lines, vec![bytes("a"), bytes("b"), bytes("c")]);
}

#[test]
fn carriage_return_stripped() {
    let mut buf = LineBuffer::new();
    let lines = buf.push_chunk(&bytes("line\r\nnext\r\n"));
    assert_eq!(lines, vec![bytes("line"), bytes("next")]);
}

#[test]
fn carriage_return_split_from_line_feed() {
    let mut buf = LineBuffer::new();
    assert_eq!(buf.push_chunk(&bytes("line\r")), Vec::<Vec<u8>>::new());
    assert_eq!(buf.push_chunk(&bytes("\n")), vec![bytes("line")]);
}

#[test]
fn empty_lines_emitted() {
    let mut buf = LineBuffer::new();
    let lines = buf.push_chunk(&bytes("\n\n"));
    assert_eq!(lines, vec![bytes(""), bytes("")]);
}

#[test]
fn unterminated_tail_stays_buffered() {
    let mut buf = LineBuffer::new();
    assert_eq!(buf.push_chunk(&bytes("abc")), Vec::<Vec<u8>>::new());
    assert_eq!(buf.push_chunk(&bytes("")), Vec::<Vec<u8>>::new());
    assert_eq!(buf.push_chunk(&bytes("\n")), vec![bytes("abc")]);
}

#[test]
fn chunk_boundaries_do_not_matter() {
    let whole = "first\nsecond\r\nthird\npartial";
    let mut expected_lines = vec![bytes("first"), bytes("second"), bytes("third")];
    for cut_a in 0..whole.len() {
        for cut_b in cut_a..whole.len() {
            let mut buf = LineBuffer::new();
            let mut got: Vec<Vec<u8>> = Vec::new();
            got.extend(buf.push_chunk(&whole.as_bytes()[..cut_a].to_vec()));
            got.extend(buf.push_chunk(&whole.as_bytes()[cut_a..cut_b].to_vec()));
            got.extend(buf.push_chunk(&whole.as_bytes()[cut_b..].to_vec()));
            assert_eq!(got, expected_lines);
        }
    }
    expected_lines.push(bytes("partial"));
    let mut buf = LineBuffer::new();
    let mut got = buf.push_chunk(&bytes(whole));
    got.extend(buf.push_chunk(&bytes("\n")));
    assert_eq!(got, expected_lines);
}
