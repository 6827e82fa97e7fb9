//! The conversion of a whole log, and the state machine that performs it
//! sample by sample.

use crate::cmd_args::{record_time_of, Options};
use crate::csv::{
    header, lemma_header_is_one_line, lemma_line_count_concat, lemma_row_is_one_line, line_count,
    row, write_header, write_row, CURRENT_PLACES, VOLTAGE_PLACES,
};
use crate::decimal::{
    decimal, digits, lemma_fixed_is_exact, magnitude, padded, pow10, sign, value_of,
};
use crate::record::{entries_of, DecodeError, Decoded, Decoder, Entry, RECORD_SIZE};
use crate::timestamp::{anchor_in_range, base_of, fits_i64, timestamp_of, Reconciler};
use vstd::prelude::*;

verus! {

/// Where a conversion stands.
#[derive(Clone, Copy, Debug, PartialEq, Eq, Structural)]
pub enum State {
    /// Nothing has been written yet.
    Start,
    /// The header is written; samples are awaited.
    Streaming,
    /// The log ended cleanly.
    Done,
    /// The conversion was given up.
    Failed,
}

/// Why a conversion stopped early.
#[derive(Clone, Copy, Debug, PartialEq, Eq, Structural)]
pub enum ConvertError {
    /// The log ended inside a sample.
    MalformedStream(DecodeError),
    /// The timestamp of a sample does not fit in 64 bits. `row` counts the
    /// samples before it, all of which were written.
    TimestampOutOfRange { row: usize },
}

/// The timestamp column: the anchor (zero without one) plus the distance of
/// each counter reading from the first.
pub open spec fn timestamps(entries: Seq<Entry>, anchor: Option<i64>) -> Seq<int> {
    Seq::new(
        entries.len(),
        |i: int| timestamp_of(anchor, entries[0].timestamp, entries[i].timestamp),
    )
}

/// Whether the timestamp of every sample fits in 64 bits.
pub open spec fn all_fit(entries: Seq<Entry>, anchor: Option<i64>) -> bool {
    forall|i: int| 0 <= i < entries.len() ==> fits_i64(#[trigger] timestamps(entries, anchor)[i])
}

/// The place of the first sample at or behind `from` whose timestamp does
/// not fit in 64 bits; the number of samples where there is none.
pub open spec fn first_misfit(entries: Seq<Entry>, anchor: Option<i64>, from: nat) -> nat
    decreases entries.len() - from,
{
    if from >= entries.len() {
        entries.len()
    } else if !fits_i64(timestamps(entries, anchor)[from as int]) {
        from
    } else {
        first_misfit(entries, anchor, from + 1)
    }
}

/// How many rows a conversion writes: one for each sample before the first
/// whose timestamp does not fit in 64 bits.
pub open spec fn rows_written(entries: Seq<Entry>, anchor: Option<i64>) -> nat {
    first_misfit(entries, anchor, 0)
}

/// The lines of the first `count` samples.
pub open spec fn rows(entries: Seq<Entry>, anchor: Option<i64>, count: nat) -> Seq<u8>
    recommends
        count <= entries.len(),
    decreases count,
{
    if count == 0 {
        Seq::empty()
    } else {
        rows(entries, anchor, (count - 1) as nat) + row(
            timestamps(entries, anchor)[count - 1],
            entries[count - 1],
        )
    }
}

/// The CSV text of a run of samples: the header, then a line for each.
pub open spec fn csv(entries: Seq<Entry>, anchor: Option<i64>) -> Seq<u8> {
    header() + rows(entries, anchor, entries.len())
}

/// How a log ends: well where it is made of whole records, else with the
/// cut-off record as the cause.
pub open spec fn end_of(input: Seq<u8>) -> Result<(), ConvertError> {
    let stray = input.len() % RECORD_SIZE as nat;
    if stray == 0 {
        Ok(())
    } else {
        Err(
            ConvertError::MalformedStream(
                DecodeError { offset: (input.len() - stray) as usize, available: stray as usize },
            ),
        )
    }
}

/// The text that the conversion of `input` writes: the header, always, and
/// the lines of the samples up to the first whose timestamp does not fit.
pub open spec fn text_of(input: Seq<u8>, anchor: Option<i64>) -> Seq<u8> {
    header() + rows(entries_of(input), anchor, rows_written(entries_of(input), anchor))
}

/// How the conversion of `input` ends: with the first sample whose timestamp
/// does not fit, where there is one; else as the log ends.
pub open spec fn status_of(input: Seq<u8>, anchor: Option<i64>) -> Result<(), ConvertError> {
    let written = rows_written(entries_of(input), anchor);
    if written < entries_of(input).len() {
        Err(ConvertError::TimestampOutOfRange { row: written as usize })
    } else {
        end_of(input)
    }
}

/// The conversion loop as a state machine. Its owner reads the log and feeds
/// it what each read gave; the machine writes the text.
pub struct Converter {
    state: State,
    reconciler: Reconciler,
    rows: usize,
    failure: Option<ConvertError>,
}

impl Converter {
    /// Where the conversion stands.
    pub closed spec fn state(self) -> State {
        self.state
    }

    /// The start time of the log, if it is known.
    pub closed spec fn anchor(self) -> Option<i64> {
        self.reconciler.anchor()
    }

    /// The counter reading of the first sample, once one was converted.
    pub closed spec fn first_raw(self) -> Option<u32> {
        self.reconciler.first_raw()
    }

    /// How many rows have been written.
    pub closed spec fn rows(self) -> nat {
        self.rows as nat
    }

    /// Why the conversion failed, if it did.
    pub closed spec fn failure(self) -> Option<ConvertError> {
        self.failure
    }

    /// The timestamp that a sample whose counter reads `raw` gets next.
    pub open spec fn next_timestamp(self, raw: u32) -> int {
        timestamp_of(
            self.anchor(),
            match self.first_raw() {
                Some(first) => first,
                None => raw,
            },
            raw,
        )
    }

    /// A machine in `Start`. Any anchor will do.
    pub fn new(anchor: Option<i64>) -> (c: Self)
        ensures
            c.state() == State::Start,
            c.anchor() == anchor,
            c.first_raw() is None,
            c.rows() == 0,
            c.failure() is None,
    {
        Converter {
            state: State::Start,
            reconciler: Reconciler::new(anchor),
            rows: 0,
            failure: None,
        }
    }

    /// Where the conversion stands.
    pub fn current_state(&self) -> (s: State)
        ensures
            s == self.state(),
    {
        self.state
    }

    /// How many rows have been written.
    pub fn rows_written(&self) -> (n: usize)
        ensures
            n == self.rows(),
    {
        self.rows
    }

    /// Why the conversion failed, if it did.
    pub fn error(&self) -> (e: Option<ConvertError>)
        ensures
            e == self.failure(),
    {
        self.failure
    }

    /// Leaves `Start`, the state it must be in: writes the header and awaits
    /// samples.
    pub fn start(&mut self, output: &mut Vec<u8>)
        requires
            old(self).state() == State::Start,
        ensures
            final(self).state() == State::Streaming,
            final(self).anchor() == old(self).anchor(),
            final(self).first_raw() == old(self).first_raw(),
            final(self).rows() == old(self).rows(),
            final(self).failure() == old(self).failure(),
            final(output)@ == old(output)@ + header(),
    {
        write_header(output);
        self.state = State::Streaming;
    }

    /// Takes what one read of the log gave. The machine must be in
    /// `Streaming`, and its count of rows below the top of its range.
    ///
    /// A sample is written as a line and more are awaited; a sample whose
    /// timestamp does not fit in 64 bits fails the conversion; the end of
    /// the log finishes it; a cut-off sample fails it. Only a sample that is
    /// taken writes anything.
    pub fn step(&mut self, event: Decoded, output: &mut Vec<u8>)
        requires
            old(self).state() == State::Streaming,
            old(self).rows() < usize::MAX,
        ensures
            final(self).anchor() == old(self).anchor(),
            match event {
                Decoded::Record(entry) => {
                    let timestamp = old(self).next_timestamp(entry.timestamp);
                    if fits_i64(timestamp) {
                        &&& final(self).state() == State::Streaming
                        &&& final(self).first_raw() == Some(
                            match old(self).first_raw() {
                                Some(first) => first,
                                None => entry.timestamp,
                            },
                        )
                        &&& final(self).rows() == old(self).rows() + 1
                        &&& final(self).failure() == old(self).failure()
                        &&& final(output)@ == old(output)@ + row(timestamp, entry)
                    } else {
                        &&& final(self).state() == State::Failed
                        &&& final(self).first_raw() == old(self).first_raw()
                        &&& final(self).rows() == old(self).rows()
                        &&& final(self).failure() == Some(
                            ConvertError::TimestampOutOfRange { row: old(self).rows() as usize },
                        )
                        &&& final(output)@ == old(output)@
                    }
                },
                Decoded::EndOfStream => {
                    &&& final(self).state() == State::Done
                    &&& final(self).first_raw() == old(self).first_raw()
                    &&& final(self).rows() == old(self).rows()
                    &&& final(self).failure() == old(self).failure()
                    &&& final(output)@ == old(output)@
                },
                Decoded::MalformedStream(cause) => {
                    &&& final(self).state() == State::Failed
                    &&& final(self).first_raw() == old(self).first_raw()
                    &&& final(self).rows() == old(self).rows()
                    &&& final(self).failure() == Some(ConvertError::MalformedStream(cause))
                    &&& final(output)@ == old(output)@
                },
            },
    {
        match event {
            Decoded::Record(entry) => {
                match self.reconciler.try_reconcile(entry.timestamp) {
                    Some(timestamp) => {
                        write_row(output, timestamp, &entry);
                        self.rows = self.rows + 1;
                    },
                    None => {
                        self.failure = Some(ConvertError::TimestampOutOfRange { row: self.rows });
                        self.state = State::Failed;
                    },
                }
            },
            Decoded::EndOfStream => {
                self.state = State::Done;
            },
            Decoded::MalformedStream(cause) => {
                self.failure = Some(io_error(&cause));
                self.state = State::Failed;
            },
        }
    }
}

/// The error that a failed read of the log becomes.
pub fn io_error(err: &DecodeError) -> (e: ConvertError)
    ensures
        e == ConvertError::MalformedStream(*err),
{
    ConvertError::MalformedStream(*err)
}

/// What a conversion leaves behind: the text it wrote, and how it ended.
#[derive(Debug)]
pub struct Conversion {
    /// The CSV text, up to the point where the conversion ended.
    pub output: Vec<u8>,
    /// Whether the log ended cleanly.
    pub status: Result<(), ConvertError>,
}

/// Converts a whole log, with any anchor.
///
/// The text always holds the header, and one line for each whole record,
/// also where the log is cut off inside a record; the status then names the
/// cut-off record. Should the timestamp of a sample not fit in 64 bits, the
/// conversion stops there: the lines before it are written and the status
/// names the sample.
pub fn convert(input: &[u8], anchor: Option<i64>) -> (r: Conversion)
    ensures
        r.output@ == text_of(input@, anchor),
        r.status == status_of(input@, anchor),
{
    let mut output: Vec<u8> = Vec::new();
    let mut decoder = Decoder::new(input);
    let mut machine = Converter::new(anchor);
    machine.start(&mut output);
    let ghost entries = entries_of(input@);
    let ghost mut count: nat = 0;
    assert(output@ == header() + rows(entries, anchor, 0));
    assert(entries.len() < usize::MAX) by {
        assert(input@.len() == input.len());
    }
    while machine.current_state() == State::Streaming
        invariant
            decoder.stream() == input@,
            machine.state() == State::Streaming ==> decoder.position() == RECORD_SIZE * count,
            entries == entries_of(input@),
            entries.len() < usize::MAX,
            count <= entries.len(),
            machine.anchor() == anchor,
            machine.rows() == count,
            machine.state() != State::Start,
            machine.state() == State::Streaming ==> machine.failure() is None,
            machine.first_raw() == if count == 0 {
                None
            } else {
                Some(entries[0].timestamp)
            },
            rows_written(entries, anchor) == first_misfit(entries, anchor, count),
            machine.state() != State::Streaming ==> count == rows_written(entries, anchor),
            machine.state() == State::Done ==> status_of(input@, anchor) is Ok,
            machine.state() == State::Failed ==> machine.failure() is Some,
            machine.state() != State::Streaming ==> status_of(input@, anchor) == match machine.failure() {
                Some(cause) => Err::<(), ConvertError>(cause),
                None => Ok::<(), ConvertError>(()),
            },
            output@ == header() + rows(entries, anchor, count),
        decreases
                input@.len() - decoder.position() + (if machine.state() == State::Streaming {
                    1int
                } else {
                    0int
                }),
    {
        let event = decoder.read_next();
        machine.step(event, &mut output);
        proof {
            if event is Record {
                assert(event->Record_0 == entries[count as int]);
                assert(machine.state() == State::Failed ==> first_misfit(entries, anchor, count)
                    == count);
                if machine.state() == State::Streaming {
                    assert(rows(entries, anchor, count + 1) == rows(entries, anchor, count) + row(
                        timestamps(entries, anchor)[count as int],
                        entries[count as int],
                    ));
                    count = count + 1;
                }
            }
        }
    }
    let status = match machine.error() {
        Some(cause) => Err(cause),
        None => Ok(()),
    };
    Conversion { output, status }
}

/// The start time that a run works with: the one that the name of the log
/// carries, none where it carries none.
pub open spec fn anchor_of(options: Options) -> Option<i64> {
    match record_time_of(options.input_file@, options.timezone@) {
        Ok(millis) => Some(millis),
        Err(_) => None,
    }
}

/// Converts the log `input` as `options` ask: with the start time that the
/// name of the log carries, or from zero where it carries none.
pub fn run(options: &Options, input: &[u8]) -> (r: Conversion)
    ensures
        r.output@ == text_of(input@, anchor_of(*options)),
        r.status == status_of(input@, anchor_of(*options)),
{
    convert(input, options.get_record_time())
}

/// The rows written are those before the first sample whose timestamp does
/// not fit in 64 bits: every timestamp before it fits, and its own does not.
pub proof fn lemma_rows_written(entries: Seq<Entry>, anchor: Option<i64>)
    ensures
        rows_written(entries, anchor) <= entries.len(),
        forall|i: int|
            0 <= i < rows_written(entries, anchor) ==> fits_i64(
                #[trigger] timestamps(entries, anchor)[i],
            ),
        rows_written(entries, anchor) < entries.len() ==> !fits_i64(
            timestamps(entries, anchor)[rows_written(entries, anchor) as int],
        ),
        all_fit(entries, anchor) <==> rows_written(entries, anchor) == entries.len(),
{
    lemma_first_misfit(entries, anchor, 0);
}

/// From any place on, `first_misfit` finds the first timestamp that does
/// not fit.
proof fn lemma_first_misfit(entries: Seq<Entry>, anchor: Option<i64>, from: nat)
    requires
        from <= entries.len(),
    ensures
        from <= first_misfit(entries, anchor, from) <= entries.len(),
        forall|i: int|
            from <= i < first_misfit(entries, anchor, from) ==> fits_i64(
                #[trigger] timestamps(entries, anchor)[i],
            ),
        first_misfit(entries, anchor, from) < entries.len() ==> !fits_i64(
            timestamps(entries, anchor)[first_misfit(entries, anchor, from) as int],
        ),
    decreases entries.len() - from,
{
    if from < entries.len() && fits_i64(timestamps(entries, anchor)[from as int]) {
        lemma_first_misfit(entries, anchor, from + 1);
    }
}

/// Where every timestamp fits in 64 bits, the conversion writes the whole
/// text and ends as the log ends.
pub proof fn lemma_whole_conversion(input: Seq<u8>, anchor: Option<i64>)
    requires
        all_fit(entries_of(input), anchor),
    ensures
        text_of(input, anchor) == csv(entries_of(input), anchor),
        status_of(input, anchor) == end_of(input),
{
    lemma_rows_written(entries_of(input), anchor);
}

/// With an anchor that lies a span of the counter from both ends of the
/// 64-bit range, every timestamp fits, whatever the log holds.
pub proof fn lemma_timestamps_fit(entries: Seq<Entry>, anchor: Option<i64>)
    requires
        anchor_in_range(anchor),
    ensures
        all_fit(entries, anchor),
{
}

/// The lines of the first `count` samples are `count` lines.
pub proof fn lemma_rows_line_count(entries: Seq<Entry>, anchor: Option<i64>, count: nat)
    ensures
        line_count(rows(entries, anchor, count)) == count,
    decreases count,
{
    if count > 0 {
        let before = rows(entries, anchor, (count - 1) as nat);
        let last = row(timestamps(entries, anchor)[count - 1], entries[count - 1]);
        lemma_rows_line_count(entries, anchor, (count - 1) as nat);
        lemma_row_is_one_line(timestamps(entries, anchor)[count - 1], entries[count - 1]);
        lemma_line_count_concat(before, last);
    }
}

/// The text of a conversion holds the header line and one line for each row
/// written, never more than the log holds whole records. Where every
/// timestamp fits in 64 bits, a log of `n` bytes gives `n / 8` rows, and the
/// conversion ends well exactly where `n` is a multiple of eight; a log that
/// is cut off ends with `MalformedStream`.
pub proof fn lemma_row_count(input: Seq<u8>, anchor: Option<i64>)
    ensures
        entries_of(input).len() == input.len() / 8,
        line_count(text_of(input, anchor)) == 1 + rows_written(entries_of(input), anchor),
        rows_written(entries_of(input), anchor) <= input.len() / 8,
        all_fit(entries_of(input), anchor) ==> line_count(text_of(input, anchor)) == 1
            + input.len() / 8,
        status_of(input, anchor) is Ok <==> input.len() % 8 == 0 && all_fit(
            entries_of(input),
            anchor,
        ),
        all_fit(entries_of(input), anchor) && input.len() % 8 != 0 ==> status_of(input, anchor)
            == Err::<(), ConvertError>(
            ConvertError::MalformedStream(
                DecodeError {
                    offset: (input.len() - input.len() % 8) as usize,
                    available: (input.len() % 8) as usize,
                },
            ),
        ),
{
    let entries = entries_of(input);
    let written = rows_written(entries, anchor);
    lemma_rows_written(entries, anchor);
    lemma_header_is_one_line();
    lemma_rows_line_count(entries, anchor, written);
    lemma_line_count_concat(header(), rows(entries, anchor, written));
}

/// The lines of the first samples stand at the start of the lines of more.
pub proof fn lemma_rows_prefix(
    entries: Seq<Entry>,
    anchor: Option<i64>,
    fewer: nat,
    more: nat,
)
    requires
        fewer <= more,
    ensures
        rows(entries, anchor, fewer).is_prefix_of(rows(entries, anchor, more)),
    decreases more,
{
    if fewer < more {
        lemma_rows_prefix(entries, anchor, fewer, (more - 1) as nat);
    }
}

/// The timestamps keep the distances of the counter: each lies as far from
/// the first as its counter reading lies from the first reading, with an
/// anchor or without.
pub proof fn lemma_timestamps_keep_distances(entries: Seq<Entry>, anchor: Option<i64>, i: int)
    requires
        0 <= i < entries.len(),
    ensures
        timestamps(entries, anchor)[i] - timestamps(entries, anchor)[0] == entries[i].timestamp
            - entries[0].timestamp,
{
}

/// Without an anchor the first timestamp is zero.
pub proof fn lemma_first_timestamp_without_anchor(entries: Seq<Entry>)
    requires
        entries.len() > 0,
    ensures
        timestamps(entries, None)[0] == 0,
{
}

/// With an anchor the first timestamp is the anchor, whatever the anchor.
pub proof fn lemma_first_timestamp_with_anchor(entries: Seq<Entry>, anchor: i64)
    requires
        entries.len() > 0,
    ensures
        timestamps(entries, Some(anchor))[0] == anchor,
{
}

/// The first sample of a log is always written, with any anchor: its line,
/// whose timestamp is the anchor (zero without one), follows the header.
pub proof fn lemma_first_row_is_written(input: Seq<u8>, anchor: Option<i64>)
    requires
        input.len() >= 8,
    ensures
        rows_written(entries_of(input), anchor) >= 1,
        (header() + row(base_of(anchor), entries_of(input)[0])).is_prefix_of(
            text_of(input, anchor),
        ),
{
    let entries = entries_of(input);
    let written = rows_written(entries, anchor);
    assert(timestamps(entries, anchor)[0] == base_of(anchor));
    assert(first_misfit(entries, anchor, 0) == first_misfit(entries, anchor, 1));
    lemma_first_misfit(entries, anchor, 1);
    lemma_rows_prefix(entries, anchor, 1, written);
    assert(rows(entries, anchor, 0) =~= Seq::<u8>::empty());
    assert(rows(entries, anchor, 1) =~= row(base_of(anchor), entries[0]));
}

/// A log that holds no whole record converts to the header alone, with any
/// anchor.
pub proof fn lemma_no_record_gives_header(input: Seq<u8>, anchor: Option<i64>)
    requires
        input.len() < 8,
    ensures
        text_of(input, anchor) == header(),
        status_of(input, anchor) == end_of(input),
{
}

/// Converting the same log with the same anchor twice gives the same text
/// and the same status, byte for byte.
pub proof fn lemma_conversion_is_repeatable(
    input: Seq<u8>,
    anchor: Option<i64>,
    first: Conversion,
    second: Conversion,
)
    requires
        first.output@ == text_of(input, anchor),
        first.status == status_of(input, anchor),
        second.output@ == text_of(input, anchor),
        second.status == status_of(input, anchor),
    ensures
        first.output@ == second.output@,
        first.status == second.status,
{
}

/// The voltage and the current stand in a row exactly: the digits of the
/// voltage spell the code times 0.00125 to five places, those of the current
/// the code times 0.1 to one place, with nothing rounded away.
pub proof fn lemma_row_values_are_exact(timestamp: int, entry: Entry)
    ensures
        ({
            let v = entry.voltage * 125;
            let c = entry.current as int;
            let vq = magnitude(v) / 100000;
            let vr = magnitude(v) % 100000;
            let cq = magnitude(c) / 10;
            let cr = magnitude(c) % 10;
            &&& row(timestamp, entry) == decimal(timestamp) + seq![44u8] + (sign(v) + digits(vq)
                + seq![46u8] + padded(vr, 5)) + seq![44u8] + (sign(c) + digits(cq) + seq![46u8]
                + padded(cr, 1)) + seq![10u8]
            &&& value_of(digits(vq)) * 100000 + value_of(padded(vr, 5)) == magnitude(v)
            &&& value_of(digits(cq)) * 10 + value_of(padded(cr, 1)) == magnitude(c)
        }),
{
    assert(pow10(5) == 100000 && pow10(1) == 10) by {
        reveal_with_fuel(pow10, 6);
    }
    lemma_fixed_is_exact(entry.spec_voltage(), VOLTAGE_PLACES as nat);
    lemma_fixed_is_exact(entry.spec_current(), CURRENT_PLACES as nat);
}

} // verus!
