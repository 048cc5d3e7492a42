//! Tests of line reassembly and `data:` field extraction.

use sse_relay::lines::LineReassembler;
use sse_relay::pipeline::SsePipeline;
use sse_relay::sse::{trim_bytes, DataExtractor};

fn records_of(chunks: &[&[u8]]) -> Vec<Vec<u8>> {
    let mut p = SsePipeline::new();
    let mut out: Vec<Vec<u8>> = Vec::new();
    for c in chunks {
        out.extend(p.feed(c).expect("valid input"));
    }
    out.extend(p.finish().expect("valid input"));
    out
}

#[test]
fn reassembler_yields_complete_lines() {
    let mut r = LineReassembler::new();
    let lines = r.feed(b"alpha\nbeta\ngam");
    assert_eq!(lines, vec![b"alpha".to_vec(), b"beta".to_vec()]);
    let tail = r.take_tail();
    assert_eq!(tail, Some(b"gam".to_vec()));
}

#[test]
fn reassembler_joins_split_lines() {
    let mut r = LineReassembler::new();
    assert_eq!(r.feed(b"da"), Vec::<Vec<u8>>::new());
    let lines = r.feed(b"ta: x\n");
    assert_eq!(lines, vec![b"data: x".to_vec()]);
    assert_eq!(r.take_tail(), None);
}

#[test]
fn trim_strips_both_ends() {
    assert_eq!(trim_bytes(b"  data: ok \r\n"), b"data: ok".to_vec());
    assert_eq!(trim_bytes(b"\t \r"), Vec::<u8>::new());
    assert_eq!(trim_bytes(b"x"), b"x".to_vec());
}

#[test]
fn extractor_emits_label_with_value() {
    let mut e = DataExtractor::new();
    let rec = e.feed_line(b"data: hello");
    assert_eq!(rec, Some(b"data: hello\n".to_vec()));
}

#[test]
fn extractor_holds_bare_label() {
    let mut e = DataExtractor::new();
    assert_eq!(e.feed_line(b"data:"), None);
    let rec = e.feed_line(b"{\"a\":1}");
    assert_eq!(rec, Some(b"data: {\"a\":1}\n".to_vec()));
}

#[test]
fn label_value_merge_two_lines() {
    let recs = records_of(&[b"data:\n{\"a\":1}\n"]);
    assert_eq!(recs, vec![b"data: {\"a\":1}\n".to_vec()]);
}

#[test]
fn label_value_merge_single_line() {
    let recs = records_of(&[b"data: {\"a\":1}\n"]);
    assert_eq!(recs, vec![b"data: {\"a\":1}\n".to_vec()]);
}

#[test]
fn dangling_label_dropped_at_end() {
    let recs = records_of(&[b"data:\n", b""]);
    assert_eq!(recs, Vec::<Vec<u8>>::new());
}

#[test]
fn dangling_label_without_newline_dropped() {
    let recs = records_of(&[b"data:"]);
    assert_eq!(recs, Vec::<Vec<u8>>::new());
}

#[test]
fn non_data_lines_ignored() {
    let recs = records_of(&[b"event: ping\n: comment\n\ndata: ok\n"]);
    assert_eq!(recs, vec![b"data: ok\n".to_vec()]);
}

#[test]
fn empty_value_label_waits_for_value() {
    let recs = records_of(&[b"data: \n{\"x\":2}\n"]);
    assert_eq!(recs, vec![b"data: {\"x\":2}\n".to_vec()]);
}

#[test]
fn blank_and_comment_keep_pending_flag() {
    let recs = records_of(&[b"data:\n\n: note\n[1]\n"]);
    assert_eq!(recs, vec![b"data: [1]\n".to_vec()]);
}

#[test]
fn plain_value_without_pending_label_ignored() {
    let recs = records_of(&[b"{\"a\":1}\n"]);
    assert_eq!(recs, Vec::<Vec<u8>>::new());
}

#[test]
fn bare_value_line_must_look_structured() {
    let recs = records_of(&[b"data:\nplain words\n[2]\n"]);
    assert_eq!(recs, vec![b"data: [2]\n".to_vec()]);
}

#[test]
fn label_with_value_clears_pending() {
    // The bare label is discarded once a full label/value line arrives:
    // the following structured line no longer merges.
    let recs = records_of(&[b"data:\ndata: full\n[3]\n"]);
    assert_eq!(recs, vec![b"data: full\n".to_vec()]);
}

#[test]
fn final_line_without_newline_flushed() {
    let recs = records_of(&[b"data: tail"]);
    assert_eq!(recs, vec![b"data: tail\n".to_vec()]);
}

#[test]
fn rechunking_does_not_change_records() {
    let whole: &[u8] = b"data: hello\ndata:\n{\"a\":1}\n: c\nevent: x\ndata: bye\n";
    let expected = records_of(&[whole]);
    // byte-by-byte
    let bytes: Vec<&[u8]> = whole.chunks(1).collect();
    assert_eq!(records_of(&bytes), expected);
    // irregular cuts
    let cuts: Vec<&[u8]> = vec![&whole[..3], &whole[3..17], &whole[17..18], &whole[18..]];
    assert_eq!(records_of(&cuts), expected);
}

#[test]
fn rechunking_inside_multibyte_scalar() {
    let whole = "data: caf\u{e9}!\n".as_bytes();
    let expected = records_of(&[whole]);
    assert_eq!(expected, vec!["data: caf\u{e9}!\n".as_bytes().to_vec()]);
    // cut in the middle of the two-byte scalar
    let k = whole.iter().position(|b| *b >= 0x80).unwrap() + 1;
    let parts: Vec<&[u8]> = vec![&whole[..k], &whole[k..]];
    assert_eq!(records_of(&parts), expected);
}

#[test]
fn invalid_encoding_is_fatal() {
    let mut p = SsePipeline::new();
    assert!(p.feed(b"data: \xff\xfe\n").is_err());
}

#[test]
fn invalid_encoding_in_flushed_tail_is_fatal() {
    let mut p = SsePipeline::new();
    assert!(p.feed(b"data: \xff").is_ok());
    assert!(p.finish().is_err());
}
