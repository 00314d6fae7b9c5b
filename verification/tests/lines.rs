use ollama_client::lines::{split_records, LineReassembler};

fn feed_all(chunks: &[&[u8]]) -> (Vec<Vec<u8>>, Option<Vec<u8>>) {
    let mut reassembler = LineReassembler::new();
    let mut records = Vec::new();
    for chunk in chunks {
        records.extend(reassembler.feed(chunk));
    }
    (records, reassembler.finish())
}

#[test]
fn whole_body_in_one_chunk() {
    let (records, rest) = feed_all(&[b"one\ntwo\nthree\n"]);
    assert_eq!(records, vec![b"one".to_vec(), b"two".to_vec(), b"three".to_vec()]);
    assert_eq!(rest, None);
}

#[test]
fn chunking_does_not_change_the_records() {
    let body: &[u8] = b"{\"a\":1}\n{\"b\":2}\n\n{\"c\":3}\n";
    let expected = vec![b"{\"a\":1}".to_vec(), b"{\"b\":2}".to_vec(), b"{\"c\":3}".to_vec()];
    for cut in 0..=body.len() {
        let (records, rest) = feed_all(&[&body[..cut], &body[cut..]]);
        assert_eq!(records, expected);
        assert_eq!(rest, None);
    }
    let bytes: Vec<&[u8]> = body.chunks(1).collect();
    let (records, rest) = feed_all(&bytes);
    assert_eq!(records, expected);
    assert_eq!(rest, None);
}

#[test]
fn record_split_across_three_chunks() {
    let mut reassembler = LineReassembler::new();
    assert_eq!(reassembler.feed(b"hel"), Vec::<Vec<u8>>::new());
    assert_eq!(reassembler.buffered(), 3);
    assert_eq!(reassembler.feed(b"lo wor"), Vec::<Vec<u8>>::new());
    assert_eq!(reassembler.buffered(), 9);
    assert_eq!(reassembler.feed(b"ld\nnext"), vec![b"hello world".to_vec()]);
    assert_eq!(reassembler.buffered(), 4);
    assert_eq!(reassembler.finish(), Some(b"next".to_vec()));
}

#[test]
fn empty_records_are_dropped() {
    let (records, rest) = feed_all(&[b"\n\na\n", b"\n", b"\nb\n\n"]);
    assert_eq!(records, vec![b"a".to_vec(), b"b".to_vec()]);
    assert_eq!(rest, None);
}

#[test]
fn chunk_without_newline_yields_nothing() {
    let mut reassembler = LineReassembler::new();
    assert!(reassembler.feed(b"partial").is_empty());
    assert!(reassembler.feed(b"").is_empty());
    assert_eq!(reassembler.buffered(), 7);
}

#[test]
fn fresh_reassembler_is_empty() {
    let reassembler = LineReassembler::new();
    assert_eq!(reassembler.buffered(), 0);
    assert_eq!(reassembler.finish(), None);
}

#[test]
fn split_records_keeps_unterminated_rest() {
    assert_eq!(split_records(b"a\nb"), vec![b"a".to_vec(), b"b".to_vec()]);
    assert_eq!(split_records(b"a\nb\n"), vec![b"a".to_vec(), b"b".to_vec()]);
    assert_eq!(split_records(b""), Vec::<Vec<u8>>::new());
    assert_eq!(split_records(b"\n"), Vec::<Vec<u8>>::new());
}
