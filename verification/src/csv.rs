//! The CSV text: a byte-order mark and a header line, then one line per
//! sample.

use crate::decimal::{
    decimal, digits, fixed, lemma_digits, lemma_padded, magnitude, padded, pow10,
    push_decimal, push_fixed, sign,
};
use crate::record::Entry;
use vstd::prelude::*;

verus! {

/// Digits behind the decimal point of a voltage.
pub const VOLTAGE_PLACES: u32 = 5;

/// Digits behind the decimal point of a current.
pub const CURRENT_PLACES: u32 = 1;

/// The UTF-8 byte-order mark, by which spreadsheets tell the encoding.
pub open spec fn byte_order_mark() -> Seq<u8> {
    seq![0xEFu8, 0xBBu8, 0xBFu8]
}

/// The header line, newline included.
pub open spec fn header_line() -> Seq<char> {
    "\"timestamp\",\"voltage\",\"current\"\n"@
}

/// The bytes of a text made of ASCII characters only.
pub open spec fn ascii_bytes(text: Seq<char>) -> Seq<u8> {
    Seq::new(text.len(), |i: int| text[i] as u8)
}

/// What stands before the first row: the byte-order mark and the header line.
pub open spec fn header() -> Seq<u8> {
    byte_order_mark() + ascii_bytes(header_line())
}

/// The line of one sample: timestamp, volts to five places, milliamperes to
/// one place, separated by commas and closed by a newline.
pub open spec fn row(timestamp: int, entry: Entry) -> Seq<u8> {
    decimal(timestamp) + seq![44u8] + fixed(entry.spec_voltage(), VOLTAGE_PLACES as nat)
        + seq![44u8] + fixed(entry.spec_current(), CURRENT_PLACES as nat) + seq![10u8]
}

/// Appends the byte-order mark and the header line.
pub fn write_header(output: &mut Vec<u8>)
    ensures
        final(output)@ == old(output)@ + header(),
{
    output.push(0xEF);
    output.push(0xBB);
    output.push(0xBF);
    let line = "\"timestamp\",\"voltage\",\"current\"\n";
    proof {
        reveal_strlit("\"timestamp\",\"voltage\",\"current\"\n");
        vstd::string::is_ascii_spec_bytes(line);
    }
    assert(line.is_ascii());
    output.extend_from_slice(line.as_bytes());
}

/// Appends the line of one sample.
pub fn write_row(output: &mut Vec<u8>, timestamp: i64, entry: &Entry)
    ensures
        final(output)@ == old(output)@ + row(timestamp as int, *entry),
{
    push_decimal(output, timestamp);
    output.push(44);
    push_fixed(output, entry.get_voltage() as i64, VOLTAGE_PLACES);
    output.push(44);
    push_fixed(output, entry.get_current() as i64, CURRENT_PLACES);
    output.push(10);
}

/// How many lines a text holds: the number of its newline bytes.
pub open spec fn line_count(text: Seq<u8>) -> nat
    decreases text.len(),
{
    if text.len() == 0 {
        0
    } else {
        line_count(text.drop_last()) + if text.last() == 10u8 {
            1nat
        } else {
            0nat
        }
    }
}

/// The lines of two texts put together are those of the one and those of the
/// other.
pub proof fn lemma_line_count_concat(a: Seq<u8>, b: Seq<u8>)
    ensures
        line_count(a + b) == line_count(a) + line_count(b),
    decreases b.len(),
{
    if b.len() == 0 {
        assert(a + b =~= a);
    } else {
        assert((a + b).drop_last() =~= a + b.drop_last());
        lemma_line_count_concat(a, b.drop_last());
    }
}

/// A text without a newline byte holds no line.
pub proof fn lemma_line_count_none(text: Seq<u8>)
    requires
        forall|i: int| 0 <= i < text.len() ==> text[i] != 10u8,
    ensures
        line_count(text) == 0,
    decreases text.len(),
{
    if text.len() > 0 {
        lemma_line_count_none(text.drop_last());
    }
}

/// The text of a number holds no newline.
proof fn lemma_number_has_no_newline(v: int, places: nat)
    ensures
        line_count(decimal(v)) == 0,
        line_count(fixed(v, places)) == 0,
{
    let m = magnitude(v);
    lemma_digits(m);
    lemma_digits(m / pow10(places));
    lemma_padded(m % pow10(places), places);
    lemma_line_count_none(sign(v));
    lemma_line_count_none(digits(m));
    lemma_line_count_none(digits(m / pow10(places)));
    lemma_line_count_none(padded(m % pow10(places), places));
    lemma_line_count_none(seq![46u8]);
    lemma_line_count_concat(sign(v), digits(m));
    lemma_line_count_concat(sign(v), digits(m / pow10(places)));
    lemma_line_count_concat(sign(v) + digits(m / pow10(places)), seq![46u8]);
    lemma_line_count_concat(
        sign(v) + digits(m / pow10(places)) + seq![46u8],
        padded(m % pow10(places), places),
    );
}

/// The line of a sample is one line.
pub proof fn lemma_row_is_one_line(timestamp: int, entry: Entry)
    ensures
        line_count(row(timestamp, entry)) == 1,
{
    let t = decimal(timestamp);
    let v = fixed(entry.spec_voltage(), VOLTAGE_PLACES as nat);
    let c = fixed(entry.spec_current(), CURRENT_PLACES as nat);
    let comma = seq![44u8];
    let newline = seq![10u8];
    lemma_number_has_no_newline(timestamp, 0);
    lemma_number_has_no_newline(entry.spec_voltage(), VOLTAGE_PLACES as nat);
    lemma_number_has_no_newline(entry.spec_current(), CURRENT_PLACES as nat);
    lemma_line_count_none(comma);
    assert(newline.drop_last() =~= Seq::<u8>::empty());
    assert(line_count(newline.drop_last()) == 0);
    assert(line_count(newline) == 1);
    lemma_line_count_concat(t, comma);
    lemma_line_count_concat(t + comma, v);
    lemma_line_count_concat(t + comma + v, comma);
    lemma_line_count_concat(t + comma + v + comma, c);
    lemma_line_count_concat(t + comma + v + comma + c, newline);
}

/// The header is one line.
pub proof fn lemma_header_is_one_line()
    ensures
        line_count(header()) == 1,
{
    reveal_strlit("\"timestamp\",\"voltage\",\"current\"\n");
    let line = ascii_bytes(header_line());
    let words = line.drop_last();
    assert(line.len() == 32);
    assert(line.last() == 10u8);
    assert forall|i: int| 0 <= i < words.len() implies words[i] != 10u8 by {
        assert(words[i] == header_line()[i] as u8);
    }
    lemma_line_count_none(words);
    lemma_line_count_none(byte_order_mark());
    lemma_line_count_concat(byte_order_mark(), line);
}

} // verus!
