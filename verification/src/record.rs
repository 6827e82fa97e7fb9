//! The wire format of one sample and the reader that walks a log.

use vstd::prelude::*;

verus! {

/// Bytes that one sample occupies in a log.
pub const RECORD_SIZE: usize = 8;

/// Hundred-thousandths of a volt that one voltage code stands for (1.25 mV).
pub const VOLTAGE_COEFFICIENT: i32 = 125;

/// Tenths of a milliampere that one current code stands for (0.1 mA).
pub const CURRENT_COEFFICIENT: i32 = 1;

/// One sample, holding the codes exactly as the device wrote them.
#[derive(Clone, Copy, Debug, PartialEq, Eq, Structural)]
pub struct Entry {
    /// Free-running device counter, in milliseconds.
    pub timestamp: u32,
    /// Raw code of the voltage channel.
    pub voltage: i16,
    /// Raw code of the current channel.
    pub current: i16,
}

/// The unsigned number that two little-endian bytes spell.
pub open spec fn le_u16(b: Seq<u8>) -> int
    recommends
        b.len() == 2,
{
    b[0] + 256 * b[1]
}

/// The unsigned number that four little-endian bytes spell.
pub open spec fn le_u32(b: Seq<u8>) -> int
    recommends
        b.len() == 4,
{
    b[0] + 256 * b[1] + 65536 * b[2] + 16777216 * b[3]
}

/// The two's complement reading of a sixteen-bit pattern.
pub open spec fn as_signed16(u: int) -> int
    recommends
        0 <= u < 65536,
{
    if u < 32768 {
        u
    } else {
        u - 65536
    }
}

/// The sample that eight bytes spell: counter, voltage code, current code.
pub open spec fn entry_of(b: Seq<u8>) -> Entry
    recommends
        b.len() == RECORD_SIZE,
{
    Entry {
        timestamp: le_u32(b.subrange(0, 4)) as u32,
        voltage: as_signed16(le_u16(b.subrange(4, 6))) as i16,
        current: as_signed16(le_u16(b.subrange(6, 8))) as i16,
    }
}

impl Entry {
    /// Voltage in hundred-thousandths of a volt.
    pub open spec fn spec_voltage(self) -> int {
        self.voltage * VOLTAGE_COEFFICIENT
    }

    /// Current in tenths of a milliampere.
    pub open spec fn spec_current(self) -> int {
        self.current * CURRENT_COEFFICIENT
    }

    /// Voltage in hundred-thousandths of a volt: the code times 0.00125 V.
    pub fn get_voltage(&self) -> (v: i32)
        ensures
            v == self.spec_voltage(),
            v == self.voltage * 125,
    {
        (self.voltage as i32) * VOLTAGE_COEFFICIENT
    }

    /// Current in tenths of a milliampere: the code times 0.1 mA.
    pub fn get_current(&self) -> (c: i32)
        ensures
            c == self.spec_current(),
            c == self.current,
    {
        (self.current as i32) * CURRENT_COEFFICIENT
    }
}

fn read_u16_le(bytes: &[u8], at: usize) -> (v: u16)
    requires
        at + 2 <= bytes.len(),
    ensures
        v == le_u16(bytes@.subrange(at as int, at + 2)),
{
    (bytes[at] as u16) + (bytes[at + 1] as u16) * 256
}

fn read_i16_le(bytes: &[u8], at: usize) -> (v: i16)
    requires
        at + 2 <= bytes.len(),
    ensures
        v == as_signed16(le_u16(bytes@.subrange(at as int, at + 2))),
{
    let u: u16 = read_u16_le(bytes, at);
    if u < 32768 {
        u as i16
    } else {
        ((u as i32) - 65536) as i16
    }
}

fn read_u32_le(bytes: &[u8], at: usize) -> (v: u32)
    requires
        at + 4 <= bytes.len(),
    ensures
        v == le_u32(bytes@.subrange(at as int, at + 4)),
{
    (bytes[at] as u32) + (bytes[at + 1] as u32) * 256 + (bytes[at + 2] as u32) * 65536 + (bytes[at
        + 3] as u32) * 16777216
}

/// Decodes the sample that starts at byte `at`, which must have all its
/// eight bytes inside `bytes`. Any bit pattern is a sample.
pub fn decode_entry(bytes: &[u8], at: usize) -> (e: Entry)
    requires
        at + RECORD_SIZE <= bytes.len(),
    ensures
        e == entry_of(bytes@.subrange(at as int, at + RECORD_SIZE)),
{
    let ghost rec = bytes@.subrange(at as int, at + RECORD_SIZE);
    assert(rec.subrange(0, 4) =~= bytes@.subrange(at as int, at + 4));
    assert(rec.subrange(4, 6) =~= bytes@.subrange(at + 4, at + 6));
    assert(rec.subrange(6, 8) =~= bytes@.subrange(at + 6, at + 8));
    Entry {
        timestamp: read_u32_le(bytes, at),
        voltage: read_i16_le(bytes, at + 4),
        current: read_i16_le(bytes, at + 6),
    }
}

/// Why a log cannot be read further: it ends inside a sample.
#[derive(Clone, Copy, Debug, PartialEq, Eq, Structural)]
pub struct DecodeError {
    /// Where the cut-off sample starts, in bytes from the start of the log.
    pub offset: usize,
    /// How many bytes of it are there: at least 1, at most 7.
    pub available: usize,
}

/// What one attempt to read a sample gives.
#[derive(Clone, Copy, Debug, PartialEq, Eq, Structural)]
pub enum Decoded {
    /// A whole sample.
    Record(Entry),
    /// The log ended where a sample would start: the clean end.
    EndOfStream,
    /// The log ended inside a sample.
    MalformedStream(DecodeError),
}

/// What reading at byte `position` of `stream` gives.
pub open spec fn decode_at(stream: Seq<u8>, position: int) -> Decoded
    recommends
        0 <= position <= stream.len(),
{
    let available = stream.len() - position;
    if available == 0 {
        Decoded::EndOfStream
    } else if available < RECORD_SIZE {
        Decoded::MalformedStream(
            DecodeError { offset: position as usize, available: available as usize },
        )
    } else {
        Decoded::Record(entry_of(stream.subrange(position, position + RECORD_SIZE)))
    }
}

/// The samples that the whole records of a log spell, in order. Bytes behind
/// the last whole record spell none.
pub open spec fn entries_of(input: Seq<u8>) -> Seq<Entry> {
    Seq::new(
        input.len() / RECORD_SIZE as nat,
        |i: int| entry_of(input.subrange(RECORD_SIZE * i, RECORD_SIZE * i + RECORD_SIZE)),
    )
}

/// Reading a log record by record gives its samples in order and then its
/// end: the clean end where the log is made of whole records, else the
/// cut-off record, which holds the bytes behind the last whole one.
pub proof fn lemma_reading_walks_the_entries(stream: Seq<u8>, k: int)
    requires
        0 <= k <= stream.len() / RECORD_SIZE as nat,
    ensures
        k < entries_of(stream).len() ==> decode_at(stream, RECORD_SIZE * k) == Decoded::Record(
            entries_of(stream)[k],
        ),
        k == entries_of(stream).len() && stream.len() % RECORD_SIZE as nat == 0 ==> decode_at(
            stream,
            RECORD_SIZE * k,
        ) == Decoded::EndOfStream,
        k == entries_of(stream).len() && stream.len() % RECORD_SIZE as nat != 0 ==> decode_at(
            stream,
            RECORD_SIZE * k,
        ) == Decoded::MalformedStream(
            DecodeError {
                offset: (RECORD_SIZE * k) as usize,
                available: (stream.len() % RECORD_SIZE as nat) as usize,
            },
        ),
{
}

/// A reader that walks a log sample by sample.
pub struct Decoder<'a> {
    stream: &'a [u8],
    position: usize,
}

impl<'a> Decoder<'a> {
    #[verifier::type_invariant]
    spec fn inv(self) -> bool {
        self.position <= self.stream@.len()
    }

    /// The whole log.
    pub closed spec fn stream(self) -> Seq<u8> {
        self.stream@
    }

    /// How many bytes have been read.
    pub closed spec fn position(self) -> int {
        self.position as int
    }

    /// A reader at the start of `stream`.
    pub fn new(stream: &'a [u8]) -> (d: Self)
        ensures
            d.stream() == stream@,
            d.position() == 0,
    {
        Decoder { stream, position: 0 }
    }

    /// How many bytes have been read.
    pub fn offset(&self) -> (n: usize)
        ensures
            n == self.position(),
            n <= self.stream().len(),
    {
        proof {
            use_type_invariant(self);
        }
        self.position
    }

    /// Reads the next sample and moves past it.
    ///
    /// At the end of the log it gives `EndOfStream`; where fewer bytes than a
    /// sample are left it gives `MalformedStream`; in both cases it stays
    /// where it is.
    pub fn read_next(&mut self) -> (r: Decoded)
        ensures
            final(self).stream() == old(self).stream(),
            0 <= old(self).position() <= old(self).stream().len(),
            r == decode_at(old(self).stream(), old(self).position()),
            final(self).position() == old(self).position() + (if r is Record {
                RECORD_SIZE as int
            } else {
                0
            }),
    {
        proof {
            use_type_invariant(&*self);
        }
        let available: usize = self.stream.len() - self.position;
        if available == 0 {
            Decoded::EndOfStream
        } else if available < RECORD_SIZE {
            Decoded::MalformedStream(DecodeError { offset: self.position, available })
        } else {
            let entry = decode_entry(self.stream, self.position);
            self.position = self.position + RECORD_SIZE;
            Decoded::Record(entry)
        }
    }
}

} // verus!
