use converter::convert::{convert, ConvertError};
use converter::record::DecodeError;

fn sample(raw_ts: u32, voltage: i16, current: i16) -> Vec<u8> {
    let mut bytes = Vec::new();
    bytes.extend_from_slice(&raw_ts.to_le_bytes());
    bytes.extend_from_slice(&voltage.to_le_bytes());
    bytes.extend_from_slice(&current.to_le_bytes());
    bytes
}

fn two_samples() -> Vec<u8> {
    let mut input = sample(1000, 800, 50);
    input.extend_from_slice(&sample(1100, 800, -50));
    input
}

const HEADER: &[u8] = b"\xef\xbb\xbf\"timestamp\",\"voltage\",\"current\"\n";

#[test]
fn two_records_without_anchor() {
    let result = convert(&two_samples(), None);
    let mut expected = HEADER.to_vec();
    expected.extend_from_slice(b"0,1.00000,5.0\n100,1.00000,-5.0\n");
    assert_eq!(result.output, expected);
    assert_eq!(result.status, Ok(()));
}

#[test]
fn two_records_with_anchor() {
    let result = convert(&two_samples(), Some(1700000000000));
    let mut expected = HEADER.to_vec();
    expected.extend_from_slice(b"1700000000000,1.00000,5.0\n1700000000100,1.00000,-5.0\n");
    assert_eq!(result.output, expected);
    assert_eq!(result.status, Ok(()));
}

#[test]
fn empty_input_gives_header_only() {
    let result = convert(&[], None);
    assert_eq!(result.output, HEADER.to_vec());
    assert_eq!(result.status, Ok(()));
}

#[test]
fn five_bytes_are_malformed() {
    let result = convert(&[1, 2, 3, 4, 5], None);
    assert_eq!(result.output, HEADER.to_vec());
    assert_eq!(
        result.status,
        Err(ConvertError::MalformedStream(DecodeError { offset: 0, available: 5 }))
    );
}
