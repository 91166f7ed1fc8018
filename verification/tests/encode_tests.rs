use std::io::Read;
use tpm_quote::encode::{
    base64_zlib_encode, compress, encode, encode_bytes, encode_compressed, tag_str, tagged,
    Compressed, QuoteKind, ENCODE_FAILED,
};

fn decode(wire: &str) -> (char, Vec<u8>) {
    let tag = wire.chars().next().unwrap();
    let stream = base64::decode(&wire[1..]).unwrap();
    let mut raw = Vec::new();
    flate2::read::ZlibDecoder::new(&stream[..]).read_to_end(&mut raw).unwrap();
    (tag, raw)
}

#[test]
fn encode_decodes_to_the_raw_bytes() {
    let every_byte: Vec<u8> = (0..=255u8).collect();
    let long: Vec<u8> = (0..100_000u32).map(|i| (i * 7 % 251) as u8).collect();
    let cases: Vec<Vec<u8>> =
        vec![Vec::new(), b"a".to_vec(), b"hello world".to_vec(), every_byte, long];
    for raw in cases {
        let wire = encode(QuoteKind::Plain, &raw);
        let (tag, back) = decode(&wire);
        assert_eq!(tag, 'r');
        assert_eq!(back, raw);
    }
}

#[test]
fn encode_of_nothing_decodes_to_nothing() {
    let wire = encode(QuoteKind::Plain, b"");
    assert!(wire.len() > 1);
    assert_eq!(decode(&wire), ('r', Vec::new()));
}

#[test]
fn encode_is_deterministic() {
    let raw = b"the same bytes give the same text";
    assert_eq!(encode(QuoteKind::Plain, raw), encode(QuoteKind::Plain, raw));
    assert_eq!(encode(QuoteKind::Deep, raw), encode(QuoteKind::Deep, raw));
}

#[test]
fn the_tag_tells_the_kind() {
    let plain = encode(QuoteKind::Plain, b"quote");
    let deep = encode(QuoteKind::Deep, b"quote");
    assert!(plain.starts_with('r'));
    assert!(deep.starts_with('d'));
    assert_eq!(plain[1..], deep[1..]);
    assert_eq!(tag_str(QuoteKind::Plain), "r");
    assert_eq!(tag_str(QuoteKind::Deep), "d");
    assert_eq!(tagged(QuoteKind::Deep, "abc"), "dabc");
    assert_eq!(tagged(QuoteKind::Plain, ""), "r");
}

#[test]
fn a_stream_is_written_in_base64() {
    let text = encode_compressed(Compressed::Stream(b"hello world".to_vec()));
    assert_eq!(text, "aGVsbG8gd29ybGQ=");
    assert_eq!(encode_compressed(Compressed::Stream(b"Man".to_vec())), "TWFu");
    assert_eq!(encode_compressed(Compressed::Stream(b"Ma".to_vec())), "TWE=");
    assert_eq!(encode_compressed(Compressed::Stream(b"M".to_vec())), "TQ==");
    assert_eq!(encode_compressed(Compressed::Stream(Vec::new())), "");
    assert_eq!(encode_compressed(Compressed::Stream(vec![0xfb, 0xff, 0xfe])), "+//+");
}

#[test]
fn a_failure_to_compress_leaves_its_mark() {
    assert_eq!(encode_compressed(Compressed::WriteFailed), "Encode Fail!");
    assert_eq!(encode_compressed(Compressed::WriteFailed), ENCODE_FAILED);
    assert_eq!(encode_compressed(Compressed::FinishFailed), "");
}

#[test]
fn compress_gives_a_zlib_stream() {
    match compress(b"hello hello hello hello") {
        Compressed::Stream(stream) => {
            assert_ne!(stream, b"hello hello hello hello".to_vec());
            let mut raw = Vec::new();
            flate2::read::ZlibDecoder::new(&stream[..]).read_to_end(&mut raw).unwrap();
            assert_eq!(raw, b"hello hello hello hello".to_vec());
        }
        _ => panic!("compressing into memory failed"),
    }
}

#[test]
fn text_and_bytes_encode_alike() {
    let text = "raw quote \u{e9}\u{4e16}";
    assert_eq!(base64_zlib_encode(text.to_string()), encode_bytes(text.as_bytes()));
    let wire = tagged(QuoteKind::Plain, &base64_zlib_encode(text.to_string()));
    assert_eq!(decode(&wire), ('r', text.as_bytes().to_vec()));
}
