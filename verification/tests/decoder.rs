use ollama_service::ndjson::NdjsonDecoder;
use ollama_service::ndjson::decode_all;

fn feed_chunks(chunks: &[&[u8]]) -> Vec<Vec<u8>> {
    let mut d = NdjsonDecoder::new();
    let mut out: Vec<Vec<u8>> = Vec::new();
    for c in chunks {
        out.extend(d.push(c));
    }
    out
}

#[test]
fn one_chunk_decodes_lines() {
    let lines = decode_all(b"{\"a\":1}\n{\"b\":2}\n");
    assert_eq!(lines, vec![b"{\"a\":1}".to_vec(), b"{\"b\":2}".to_vec()]);
}

#[test]
fn split_invariance_byte_by_byte() {
    let stream = b"{\"a\":1}\n{\"b\":2}\n\n{\"c\":3}\ntrail";
    let whole = decode_all(stream);
    let mut d = NdjsonDecoder::new();
    let mut out: Vec<Vec<u8>> = Vec::new();
    for b in stream.iter() {
        out.extend(d.push(&[*b]));
    }
    assert_eq!(out, whole);
    assert_eq!(out.len(), 3);
}

#[test]
fn split_invariance_every_two_way_split() {
    let stream = b"{\"a\":1}\n\r\n{\"b\":22}\nrest";
    let whole = decode_all(stream);
    for cut in 0..=stream.len() {
        let split = feed_chunks(&[&stream[..cut], &stream[cut..]]);
        assert_eq!(split, whole);
    }
}

#[test]
fn record_split_across_chunks() {
    let mut d = NdjsonDecoder::new();
    assert!(d.push(b"{\"a\"").is_empty());
    let got = d.push(b":1}\n");
    assert_eq!(got, vec![b"{\"a\":1}".to_vec()]);
}

#[test]
fn blank_lines_discarded() {
    let lines = decode_all(b"\n   \n\t\r\n{\"x\":1}\n \n");
    assert_eq!(lines, vec![b"{\"x\":1}".to_vec()]);
}

#[test]
fn truncated_final_record_discarded() {
    let lines = decode_all(b"{\"a\":1}\n{\"unfinished\":");
    assert_eq!(lines, vec![b"{\"a\":1}".to_vec()]);
}

#[test]
fn empty_stream_yields_nothing() {
    assert!(decode_all(b"").is_empty());
    let mut d = NdjsonDecoder::new();
    assert!(d.push(b"").is_empty());
}
