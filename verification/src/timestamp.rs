//! The timestamp column: the device counter made into a ticking clock that
//! starts at the anchor, or at zero where there is none.

use vstd::prelude::*;

verus! {

/// The widest gap between two values of the 32-bit device counter.
pub const COUNTER_SPAN: i64 = 0xFFFF_FFFF;

/// Whether the number `t` can be held in 64 bits.
pub open spec fn fits_i64(t: int) -> bool {
    i64::MIN <= t <= i64::MAX
}

/// Whether `anchor` lies at least one span of the counter from both ends of
/// the 64-bit range, so that no timestamp counted from it can leave the
/// range.
pub open spec fn anchor_in_range(anchor: Option<i64>) -> bool {
    match anchor {
        Some(a) => i64::MIN + COUNTER_SPAN <= a <= i64::MAX - COUNTER_SPAN,
        None => true,
    }
}

/// The timestamp of the first sample: the anchor, or zero without one.
pub open spec fn base_of(anchor: Option<i64>) -> int {
    match anchor {
        Some(a) => a as int,
        None => 0,
    }
}

/// The timestamp of a sample whose counter reads `raw`, in a log whose first
/// sample read `first`: the base plus the signed counter difference.
pub open spec fn timestamp_of(anchor: Option<i64>, first: u32, raw: u32) -> int {
    base_of(anchor) + (raw - first)
}

/// A timestamp counted from an anchor that lies a span of the counter from
/// both ends of the range fits in 64 bits.
pub proof fn lemma_anchor_in_range_fits(anchor: Option<i64>, first: u32, raw: u32)
    requires
        anchor_in_range(anchor),
    ensures
        fits_i64(timestamp_of(anchor, first, raw)),
{
}

/// Turns counter readings into timestamps, one log at a time.
///
/// The first reading it is given becomes the origin for good; every
/// timestamp is the anchor plus the distance of the reading from that origin.
pub struct Reconciler {
    anchor_offset_ms: Option<i64>,
    first_raw_seen: Option<u32>,
}

impl Reconciler {
    /// The anchor it was made with.
    pub closed spec fn anchor(self) -> Option<i64> {
        self.anchor_offset_ms
    }

    /// The counter reading of the first sample, once one was seen.
    pub closed spec fn first_raw(self) -> Option<u32> {
        self.first_raw_seen
    }

    /// The origin that counts for a reading `raw`: the first reading seen,
    /// or `raw` itself where none was seen yet.
    pub open spec fn origin_for(self, raw: u32) -> u32 {
        match self.first_raw() {
            Some(first) => first,
            None => raw,
        }
    }

    /// The timestamp that a reading `raw` gets next.
    pub open spec fn next_timestamp(self, raw: u32) -> int {
        timestamp_of(self.anchor(), self.origin_for(raw), raw)
    }

    /// A reconciler that has seen no sample yet. Any anchor will do.
    pub fn new(anchor: Option<i64>) -> (r: Self)
        ensures
            r.anchor() == anchor,
            r.first_raw() is None,
    {
        Reconciler { anchor_offset_ms: anchor, first_raw_seen: None }
    }

    /// The anchor it was made with.
    pub fn anchor_offset_ms(&self) -> (a: Option<i64>)
        ensures
            a == self.anchor(),
    {
        self.anchor_offset_ms
    }

    /// The counter reading of the first sample, once one was seen.
    pub fn first_raw_seen(&self) -> (f: Option<u32>)
        ensures
            f == self.first_raw(),
    {
        self.first_raw_seen
    }

    /// The timestamp of the sample whose counter reads `raw_counter`, where
    /// it fits in 64 bits; `None`, with nothing changed, where it does not.
    ///
    /// The first call fixes the origin and gives the anchor (zero without
    /// one), so it always succeeds; later calls give the anchor plus the
    /// signed distance of the reading from the origin.
    pub fn try_reconcile(&mut self, raw_counter: u32) -> (t: Option<i64>)
        ensures
            final(self).anchor() == old(self).anchor(),
            fits_i64(old(self).next_timestamp(raw_counter)) ==> t == Some(
                old(self).next_timestamp(raw_counter) as i64,
            ) && final(self).first_raw() == Some(old(self).origin_for(raw_counter)),
            !fits_i64(old(self).next_timestamp(raw_counter)) ==> t is None
                && final(self).first_raw() == old(self).first_raw(),
            old(self).first_raw() is None ==> t == Some(base_of(old(self).anchor()) as i64),
    {
        let first: u32 = match self.first_raw_seen {
            Some(first) => first,
            None => raw_counter,
        };
        let base: i64 = match self.anchor_offset_ms {
            Some(a) => a,
            None => 0,
        };
        let wide: i128 = (base as i128) + ((raw_counter as i128) - (first as i128));
        if wide < i64::MIN as i128 || wide > i64::MAX as i128 {
            None
        } else {
            self.first_raw_seen = Some(first);
            Some(wide as i64)
        }
    }

    /// The timestamp of the sample whose counter reads `raw_counter`, which
    /// must fit in 64 bits; `try_reconcile` tests that.
    ///
    /// The first call fixes the origin and returns the anchor (zero without
    /// one); later calls return the anchor plus the signed distance of the
    /// reading from the origin.
    pub fn reconcile(&mut self, raw_counter: u32) -> (t: i64)
        requires
            fits_i64(old(self).next_timestamp(raw_counter)),
        ensures
            final(self).anchor() == old(self).anchor(),
            final(self).first_raw() == Some(old(self).origin_for(raw_counter)),
            t == timestamp_of(old(self).anchor(), final(self).first_raw().unwrap(), raw_counter),
            old(self).first_raw() is None ==> t == base_of(old(self).anchor()),
    {
        let first: u32 = match self.first_raw_seen {
            Some(first) => first,
            None => {
                self.first_raw_seen = Some(raw_counter);
                raw_counter
            },
        };
        let base: i64 = match self.anchor_offset_ms {
            Some(a) => a,
            None => 0,
        };
        base + ((raw_counter as i64) - (first as i64))
    }
}

} // verus!
