use binrw::BinReaderExt;
use converter::record::{decode_entry, DecodeError, Decoded, Decoder, Entry, RECORD_SIZE};
use std::io::Cursor;

#[test]
fn record_size_is_eight() {
    assert_eq!(RECORD_SIZE, 8);
}

#[test]
fn fields_are_little_endian() {
    let bytes = [0x78, 0x56, 0x34, 0x12, 0x20, 0x03, 0xCE, 0xFF];
    let e = decode_entry(&bytes, 0);
    assert_eq!(e, Entry { timestamp: 0x12345678, voltage: 800, current: -50 });
}

#[test]
fn every_bit_pattern_is_a_sample() {
    let e = decode_entry(&[0xFF; 8], 0);
    assert_eq!(e, Entry { timestamp: u32::MAX, voltage: -1, current: -1 });
    let e = decode_entry(&[0x00, 0x00, 0x00, 0x80, 0x00, 0x80, 0xFF, 0x7F], 0);
    assert_eq!(e, Entry { timestamp: 0x8000_0000, voltage: i16::MIN, current: i16::MAX });
}

#[test]
fn decode_at_an_offset() {
    let bytes = [9, 9, 9, 1, 0, 0, 0, 2, 0, 3, 0];
    let e = decode_entry(&bytes, 3);
    assert_eq!(e, Entry { timestamp: 1, voltage: 2, current: 3 });
}

#[test]
fn decoding_agrees_with_binrw() {
    let mut seed: u64 = 0x9E3779B97F4A7C15;
    for _ in 0..2000 {
        let mut bytes = [0u8; 8];
        for b in bytes.iter_mut() {
            seed = seed.wrapping_mul(6364136223846793005).wrapping_add(1442695040888963407);
            *b = (seed >> 56) as u8;
        }
        let mut cursor = Cursor::new(&bytes[..]);
        let timestamp: u32 = cursor.read_le().unwrap();
        let voltage: i16 = cursor.read_le().unwrap();
        let current: i16 = cursor.read_le().unwrap();
        assert_eq!(decode_entry(&bytes, 0), Entry { timestamp, voltage, current });
    }
}

#[test]
fn reader_walks_the_records_and_ends() {
    let mut log = Vec::new();
    for i in 0..3u32 {
        log.extend_from_slice(&(1000 + i).to_le_bytes());
        log.extend_from_slice(&(i as i16).to_le_bytes());
        log.extend_from_slice(&(-(i as i16)).to_le_bytes());
    }
    let mut reader = Decoder::new(&log);
    assert_eq!(reader.offset(), 0);
    for i in 0..3u32 {
        let expected = Entry { timestamp: 1000 + i, voltage: i as i16, current: -(i as i16) };
        assert_eq!(reader.read_next(), Decoded::Record(expected));
        assert_eq!(reader.offset(), 8 * (i as usize + 1));
    }
    assert_eq!(reader.read_next(), Decoded::EndOfStream);
    assert_eq!(reader.read_next(), Decoded::EndOfStream);
    assert_eq!(reader.offset(), 24);
}

#[test]
fn reader_of_nothing_ends_at_once() {
    let mut reader = Decoder::new(&[]);
    assert_eq!(reader.read_next(), Decoded::EndOfStream);
}

#[test]
fn reader_reports_a_cut_off_record() {
    for stray in 1..8usize {
        let log = vec![0u8; 8 + stray];
        let mut reader = Decoder::new(&log);
        assert!(matches!(reader.read_next(), Decoded::Record(_)));
        let cut = Decoded::MalformedStream(DecodeError { offset: 8, available: stray });
        assert_eq!(reader.read_next(), cut);
        assert_eq!(reader.read_next(), cut);
        assert_eq!(reader.offset(), 8);
    }
}
