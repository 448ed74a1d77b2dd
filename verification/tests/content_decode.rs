use std::io::Write;

use flate2::Compression;
use flate2::write::{DeflateEncoder, GzEncoder, ZlibEncoder};
use subforge::fetcher::MAX_SUBSCRIPTION_BYTES;
use subforge::fetcher::content_decode::{
    decode_response_body, is_decoded_body_too_large, read_bounded_decode,
    response_body_too_large_message,
};

fn expect_decode_limit_error(compressed: Vec<u8>, encoding: &str) -> String {
    match decode_response_body(compressed, Some(encoding)) {
        Ok(decoded) => panic!(
            "{encoding} 解压后超过订阅限制必须失败，实际解出 {} bytes",
            decoded.len()
        ),
        Err(error) => error,
    }
}

fn gzip_encode(payload: &[u8]) -> Vec<u8> {
    let mut encoder = GzEncoder::new(Vec::new(), Compression::default());
    encoder.write_all(payload).expect("写入 gzip 压缩流失败");
    encoder.finish().expect("完成 gzip 压缩失败")
}

fn brotli_encode(payload: &[u8]) -> Vec<u8> {
    let mut output = Vec::new();
    {
        let mut encoder = brotli::CompressorWriter::new(&mut output, 4096, 5, 22);
        encoder.write_all(payload).expect("写入 br 压缩流失败");
    }
    output
}

fn deflate_encode(payload: &[u8]) -> Vec<u8> {
    let mut encoder = ZlibEncoder::new(Vec::new(), Compression::default());
    encoder.write_all(payload).expect("写入 deflate 压缩流失败");
    encoder.finish().expect("完成 deflate 压缩失败")
}

fn raw_deflate_encode(payload: &[u8]) -> Vec<u8> {
    let mut encoder = DeflateEncoder::new(Vec::new(), Compression::default());
    encoder.write_all(payload).expect("写入 raw deflate 压缩流失败");
    encoder.finish().expect("完成 raw deflate 压缩失败")
}

#[test]
fn gzip_decode_rejects_output_over_subscription_limit() {
    let compressed = gzip_encode(&vec![b'a'; MAX_SUBSCRIPTION_BYTES + 1]);

    let error = expect_decode_limit_error(compressed, "gzip");

    assert!(error.contains("上游响应体过大"));
}

#[test]
fn brotli_decode_rejects_output_over_subscription_limit() {
    let compressed = brotli_encode(&vec![b'a'; MAX_SUBSCRIPTION_BYTES + 1]);

    let error = expect_decode_limit_error(compressed, "br");

    assert!(error.contains("上游响应体过大"));
}

#[test]
fn deflate_decode_rejects_output_over_subscription_limit() {
    let compressed = deflate_encode(&vec![b'a'; MAX_SUBSCRIPTION_BYTES + 1]);

    let error = expect_decode_limit_error(compressed, "deflate");

    assert!(error.contains("上游响应体过大"));
}

#[test]
fn identity_blank_and_unknown_encodings_leave_the_body() {
    let body = b"plain body".to_vec();
    assert_eq!(decode_response_body(body.clone(), None).unwrap(), body);
    assert_eq!(decode_response_body(body.clone(), Some("  ")).unwrap(), body);
    assert_eq!(decode_response_body(body.clone(), Some("identity")).unwrap(), body);
    assert_eq!(decode_response_body(body.clone(), Some("zstd")).unwrap(), body);
}

#[test]
fn encodings_are_undone_last_first() {
    let text = b"subscription payload".to_vec();
    let gz = decode_response_body(gzip_encode(&text), Some(" GZIP ")).unwrap();
    assert_eq!(gz, text);
    let x_gz = decode_response_body(gzip_encode(&text), Some("x-gzip")).unwrap();
    assert_eq!(x_gz, text);
    let stacked = brotli_encode(&gzip_encode(&text));
    assert_eq!(decode_response_body(stacked, Some("gzip, br")).unwrap(), text);
    let zlib = decode_response_body(deflate_encode(&text), Some("deflate")).unwrap();
    assert_eq!(zlib, text);
    let raw = decode_response_body(raw_deflate_encode(&text), Some("deflate")).unwrap();
    assert_eq!(raw, text);
}

#[test]
fn broken_streams_report_the_encoding() {
    let error = decode_response_body(b"not gzip at all".to_vec(), Some("gzip")).unwrap_err();
    assert!(error.starts_with("gzip 解压失败："), "{error}");
}

#[test]
fn limit_messages_and_bounded_reads() {
    assert_eq!(
        response_body_too_large_message(7),
        format!("上游响应体过大：7 bytes（限制 {} bytes）", MAX_SUBSCRIPTION_BYTES)
    );
    assert!(is_decoded_body_too_large("上游响应体过大：9 bytes"));
    assert!(!is_decoded_body_too_large("gzip 解压失败：x"));
    assert_eq!(read_bounded_decode(Ok(vec![1, 2]), "br").unwrap(), vec![1, 2]);
    assert_eq!(
        read_bounded_decode(Err("bad".to_string()), "br").unwrap_err(),
        "br 解压失败：bad"
    );
    let over = read_bounded_decode(Ok(vec![0; MAX_SUBSCRIPTION_BYTES + 1]), "gzip").unwrap_err();
    assert_eq!(over, response_body_too_large_message(MAX_SUBSCRIPTION_BYTES + 1));
}
