use converter::cmd_args::Options;
use converter::convert::{convert, io_error, run, ConvertError, Converter, State};
use converter::record::{DecodeError, Decoded, Entry};

const HEAD: &[u8] = b"\xef\xbb\xbf\"timestamp\",\"voltage\",\"current\"\n";

fn log(samples: &[(u32, i16, i16)]) -> Vec<u8> {
    let mut bytes = Vec::new();
    for (t, v, c) in samples {
        bytes.extend_from_slice(&t.to_le_bytes());
        bytes.extend_from_slice(&v.to_le_bytes());
        bytes.extend_from_slice(&c.to_le_bytes());
    }
    bytes
}

fn lines(text: &[u8]) -> usize {
    text.iter().filter(|b| **b == b'\n').count()
}

fn timestamps(text: &[u8]) -> Vec<i64> {
    let body = std::str::from_utf8(&text[HEAD.len()..]).unwrap();
    body.lines().map(|l| l.split(',').next().unwrap().parse().unwrap()).collect()
}

#[test]
fn machine_walks_from_start_to_done() {
    let mut out = Vec::new();
    let mut m = Converter::new(Some(10));
    assert_eq!(m.current_state(), State::Start);
    m.start(&mut out);
    assert_eq!(m.current_state(), State::Streaming);
    assert_eq!(out, HEAD.to_vec());
    m.step(Decoded::Record(Entry { timestamp: 5, voltage: 8, current: 3 }), &mut out);
    assert_eq!(m.current_state(), State::Streaming);
    m.step(Decoded::Record(Entry { timestamp: 7, voltage: -8, current: -3 }), &mut out);
    assert_eq!(m.current_state(), State::Streaming);
    m.step(Decoded::EndOfStream, &mut out);
    assert_eq!(m.current_state(), State::Done);
    assert_eq!(m.error(), None);
    let mut expected = HEAD.to_vec();
    expected.extend_from_slice(b"10,0.01000,0.3\n12,-0.01000,-0.3\n");
    assert_eq!(out, expected);
}

#[test]
fn machine_fails_on_a_cut_off_record() {
    let mut out = Vec::new();
    let mut m = Converter::new(None);
    m.start(&mut out);
    m.step(Decoded::Record(Entry { timestamp: 5, voltage: 0, current: 0 }), &mut out);
    let cause = DecodeError { offset: 8, available: 3 };
    m.step(Decoded::MalformedStream(cause), &mut out);
    assert_eq!(m.current_state(), State::Failed);
    assert_eq!(m.error(), Some(ConvertError::MalformedStream(cause)));
    let mut expected = HEAD.to_vec();
    expected.extend_from_slice(b"0,0.00000,0.0\n");
    assert_eq!(out, expected);
}

#[test]
fn a_failed_read_becomes_a_malformed_stream() {
    let cause = DecodeError { offset: 16, available: 7 };
    assert_eq!(io_error(&cause), ConvertError::MalformedStream(cause));
}

#[test]
fn rows_number_the_whole_records() {
    for n in 0..40usize {
        let input = vec![0x5Au8; n];
        let result = convert(&input, None);
        assert_eq!(lines(&result.output), 1 + n / 8, "{} bytes", n);
        if n % 8 == 0 {
            assert_eq!(result.status, Ok(()));
        } else {
            let cause = DecodeError { offset: n - n % 8, available: n % 8 };
            assert_eq!(result.status, Err(ConvertError::MalformedStream(cause)));
        }
    }
}

#[test]
fn a_cut_off_log_keeps_the_rows_before_the_cut() {
    let mut input = log(&[(1000, 800, 50), (1100, 800, -50)]);
    input.extend_from_slice(&[1, 2, 3]);
    let result = convert(&input, None);
    let mut expected = HEAD.to_vec();
    expected.extend_from_slice(b"0,1.00000,5.0\n100,1.00000,-5.0\n");
    assert_eq!(result.output, expected);
    assert_eq!(
        result.status,
        Err(ConvertError::MalformedStream(DecodeError { offset: 16, available: 3 }))
    );
}

#[test]
fn timestamps_keep_the_distances_of_the_counter() {
    let samples = [(5000u32, 1i16, 1i16), (5001, 2, 2), (4000, 3, 3), (u32::MAX, 4, 4), (0, 5, 5)];
    for anchor in [None, Some(0), Some(1700000000000), Some(-77)] {
        let result = convert(&log(&samples), anchor);
        let ts = timestamps(&result.output);
        assert_eq!(ts.len(), samples.len());
        for i in 0..samples.len() {
            assert_eq!(ts[i] - ts[0], samples[i].0 as i64 - samples[0].0 as i64);
        }
        assert_eq!(ts[0], anchor.unwrap_or(0));
    }
}

#[test]
fn the_same_log_converts_to_the_same_text() {
    let input = log(&[(1, 2, 3), (4, 5, 6), (7, -8, -9)]);
    let first = convert(&input, Some(99));
    let second = convert(&input, Some(99));
    assert_eq!(first.output, second.output);
    assert_eq!(first.status, second.status);
}

#[test]
fn extreme_codes_and_anchors() {
    let input = log(&[(0, i16::MIN, i16::MAX), (u32::MAX, i16::MAX, i16::MIN)]);
    let result = convert(&input, Some(i64::MAX - 0xFFFF_FFFF));
    let mut expected = HEAD.to_vec();
    expected.extend_from_slice(b"9223372032559808512,-40.96000,3276.7\n");
    expected.extend_from_slice(b"9223372036854775807,40.95875,-3276.8\n");
    assert_eq!(result.output, expected);
    assert_eq!(result.status, Ok(()));
}

#[test]
fn run_anchors_the_rows_at_the_start_in_the_name() {
    let options = Options {
        output_file: None,
        timezone: "Asia/Tokyo".to_string(),
        input_file: "powerlog-20240101-000000.dat".to_string(),
    };
    let result = run(&options, &log(&[(1000, 800, 50), (1100, 800, -50)]));
    let mut expected = HEAD.to_vec();
    expected.extend_from_slice(b"1704034800000,1.00000,5.0\n1704034800100,1.00000,-5.0\n");
    assert_eq!(result.output, expected);
    assert_eq!(result.status, Ok(()));
}

#[test]
fn run_counts_from_zero_without_a_start() {
    for (name, zone) in [("data.bin", "Asia/Tokyo"), ("powerlog-20240101-000000.dat", "Nowhere")] {
        let options = Options {
            output_file: Some("out.csv".to_string()),
            timezone: zone.to_string(),
            input_file: name.to_string(),
        };
        let result = run(&options, &log(&[(1000, 800, 50), (1100, 800, -50)]));
        let mut expected = HEAD.to_vec();
        expected.extend_from_slice(b"0,1.00000,5.0\n100,1.00000,-5.0\n");
        assert_eq!(result.output, expected);
        assert_eq!(result.status, Ok(()));
    }
}

#[test]
fn run_reports_a_cut_off_log() {
    let options = Options {
        output_file: None,
        timezone: "UTC".to_string(),
        input_file: "powerlog-19700101-000001.dat".to_string(),
    };
    let result = run(&options, &[0, 0, 0, 0, 0]);
    assert_eq!(result.output, HEAD.to_vec());
    assert_eq!(
        result.status,
        Err(ConvertError::MalformedStream(DecodeError { offset: 0, available: 5 }))
    );
}

#[test]
fn the_first_row_starts_with_the_anchor_whatever_it_is() {
    for anchor in [i64::MAX, i64::MIN, -1, 0, 1700000000000, i64::MAX - 0xFFFF_FFFE] {
        for raw in [0u32, 1000, u32::MAX] {
            let result = convert(&log(&[(raw, 800, 50)]), Some(anchor));
            let mut expected = HEAD.to_vec();
            expected.extend_from_slice(format!("{},1.00000,5.0\n", anchor).as_bytes());
            assert_eq!(result.output, expected);
            assert_eq!(result.status, Ok(()));
        }
    }
}

#[test]
fn an_empty_log_gives_the_header_with_any_anchor() {
    for anchor in [None, Some(0), Some(i64::MAX), Some(i64::MIN), Some(1700000000000)] {
        let result = convert(&[], anchor);
        assert_eq!(result.output, HEAD.to_vec());
        assert_eq!(result.status, Ok(()));
    }
}

#[test]
fn a_cut_off_log_is_malformed_with_any_anchor() {
    for anchor in [None, Some(i64::MAX), Some(i64::MIN)] {
        for n in 1..8usize {
            let result = convert(&vec![7u8; n], anchor);
            assert_eq!(result.output, HEAD.to_vec());
            let cause = DecodeError { offset: 0, available: n };
            assert_eq!(result.status, Err(ConvertError::MalformedStream(cause)));
        }
        let mut input = log(&[(5, 1, 3)]);
        input.extend_from_slice(&[1, 2, 3]);
        let result = convert(&input, anchor);
        let mut expected = HEAD.to_vec();
        expected.extend_from_slice(format!("{},0.00125,0.3\n", anchor.unwrap_or(0)).as_bytes());
        assert_eq!(result.output, expected);
        let cause = DecodeError { offset: 8, available: 3 };
        assert_eq!(result.status, Err(ConvertError::MalformedStream(cause)));
    }
}

#[test]
fn rows_show_five_and_one_places_with_any_anchor() {
    for anchor in [None, Some(i64::MAX), Some(i64::MIN)] {
        let a = anchor.unwrap_or(0);
        for (v, c, text) in [
            (1i16, 3i16, "0.00125,0.3"),
            (-800, -50, "-1.00000,-5.0"),
            (0, 0, "0.00000,0.0"),
        ] {
            let result = convert(&log(&[(77, v, c)]), anchor);
            let mut expected = HEAD.to_vec();
            expected.extend_from_slice(format!("{},{}\n", a, text).as_bytes());
            assert_eq!(result.output, expected);
            assert_eq!(result.status, Ok(()));
        }
    }
}

#[test]
fn the_conversion_stops_at_a_timestamp_beyond_the_range() {
    let input = log(&[(10, 800, 50), (9, 800, 50), (11, 800, 50), (10, 800, 50)]);
    let result = convert(&input, Some(i64::MAX));
    let mut expected = HEAD.to_vec();
    expected.extend_from_slice(b"9223372036854775807,1.00000,5.0\n");
    expected.extend_from_slice(b"9223372036854775806,1.00000,5.0\n");
    assert_eq!(result.output, expected);
    assert_eq!(result.status, Err(ConvertError::TimestampOutOfRange { row: 2 }));

    let input = log(&[(10, 1, 1), (9, 1, 1)]);
    let result = convert(&input, Some(i64::MIN));
    let mut expected = HEAD.to_vec();
    expected.extend_from_slice(b"-9223372036854775808,0.00125,0.1\n");
    assert_eq!(result.output, expected);
    assert_eq!(result.status, Err(ConvertError::TimestampOutOfRange { row: 1 }));
}

#[test]
fn a_timestamp_beyond_the_range_counts_before_a_cut_off_end() {
    let mut input = log(&[(10, 1, 1), (11, 1, 1)]);
    input.extend_from_slice(&[1, 2, 3]);
    let result = convert(&input, Some(i64::MAX));
    assert_eq!(lines(&result.output), 2);
    assert_eq!(result.status, Err(ConvertError::TimestampOutOfRange { row: 1 }));
}

#[test]
fn timestamps_that_reach_the_ends_of_the_range_are_written() {
    let input = log(&[(100, 1, 1), (105, 1, 1), (95, 1, 1)]);
    let result = convert(&input, Some(i64::MAX - 5));
    assert_eq!(timestamps(&result.output), vec![i64::MAX - 5, i64::MAX, i64::MAX - 10]);
    assert_eq!(result.status, Ok(()));
    let result = convert(&input, Some(i64::MIN + 5));
    assert_eq!(timestamps(&result.output), vec![i64::MIN + 5, i64::MIN + 10, i64::MIN]);
    assert_eq!(result.status, Ok(()));
}

#[test]
fn machine_fails_on_a_timestamp_beyond_the_range() {
    let mut out = Vec::new();
    let mut m = Converter::new(Some(i64::MAX));
    m.start(&mut out);
    m.step(Decoded::Record(Entry { timestamp: 5, voltage: 0, current: 0 }), &mut out);
    assert_eq!(m.current_state(), State::Streaming);
    assert_eq!(m.rows_written(), 1);
    let before = out.clone();
    m.step(Decoded::Record(Entry { timestamp: 6, voltage: 0, current: 0 }), &mut out);
    assert_eq!(m.current_state(), State::Failed);
    assert_eq!(m.rows_written(), 1);
    assert_eq!(m.error(), Some(ConvertError::TimestampOutOfRange { row: 1 }));
    assert_eq!(out, before);
}

#[test]
fn machine_counts_its_rows() {
    let mut out = Vec::new();
    let mut m = Converter::new(None);
    assert_eq!(m.rows_written(), 0);
    m.start(&mut out);
    assert_eq!(m.rows_written(), 0);
    for i in 0..5u32 {
        m.step(Decoded::Record(Entry { timestamp: i, voltage: 0, current: 0 }), &mut out);
        assert_eq!(m.rows_written(), i as usize + 1);
    }
    m.step(Decoded::EndOfStream, &mut out);
    assert_eq!(m.rows_written(), 5);
    assert_eq!(lines(&out), 6);
}
