//! Hybrid logical timestamps.

use vstd::prelude::*;

verus! {

/// How many counter values one millisecond holds.
pub const COUNTER_RANGE: u64 = 65536;

/// The largest millisecond count that a timestamp can carry.
pub const MILLIS_MAX: u64 = 281474976710655;

/// A 64-bit logical timestamp: wall-clock milliseconds in the upper 48 bits,
/// a logical counter in the lower 16. Timestamps are ordered as the numbers
/// they hold, so the milliseconds decide and the counter breaks ties.
#[derive(Clone, Copy, Debug, PartialEq, Eq, Structural)]
pub struct NTP64(pub u64);

impl View for NTP64 {
    type V = u64;

    open spec fn view(&self) -> u64 {
        self.0
    }
}

/// The timestamp that a wall clock reading of `now_ms` milliseconds stands
/// for, with a counter of zero. Readings beyond `MILLIS_MAX` count as
/// `MILLIS_MAX`.
pub open spec fn wall_stamp(now_ms: u64) -> u64 {
    if now_ms <= MILLIS_MAX {
        (now_ms * COUNTER_RANGE) as u64
    } else {
        (MILLIS_MAX * COUNTER_RANGE) as u64
    }
}

/// The timestamp that follows the high-water mark `mark` when the wall clock
/// reads `now_ms`: the wall clock's own timestamp if that is ahead of the
/// mark, else the mark plus one. A mark of -1 stands for "nothing yet".
/// `None` when the 64 bits are used up.
pub open spec fn next_stamp(mark: int, now_ms: u64) -> Option<u64> {
    let wall = wall_stamp(now_ms) as int;
    let next = if wall > mark {
        wall
    } else {
        mark + 1
    };
    if next <= u64::MAX {
        Some(next as u64)
    } else {
        None
    }
}

impl NTP64 {
    /// Puts a timestamp together from its two parts.
    pub fn from_parts(millis: u64, counter: u16) -> (stamp: Option<NTP64>)
        ensures
            millis <= MILLIS_MAX ==> stamp == Some(NTP64((millis * COUNTER_RANGE + counter) as u64)),
            millis > MILLIS_MAX ==> stamp.is_none(),
    {
        if millis <= MILLIS_MAX {
            let low: u64 = counter.into();
            Some(NTP64(millis * COUNTER_RANGE + low))
        } else {
            None
        }
    }

    /// The number that the timestamp holds.
    pub fn as_u64(&self) -> (bits: u64)
        ensures
            bits == self@,
    {
        self.0
    }

    /// The wall-clock part, in milliseconds.
    pub fn millis(&self) -> (millis: u64)
        ensures
            millis == self@ / COUNTER_RANGE,
            millis <= MILLIS_MAX,
    {
        self.0 / COUNTER_RANGE
    }

    /// The logical counter within the millisecond.
    pub fn counter(&self) -> (counter: u64)
        ensures
            counter == self@ % COUNTER_RANGE,
            self@ == self@ / COUNTER_RANGE * COUNTER_RANGE + counter,
    {
        self.0 % COUNTER_RANGE
    }

    /// The timestamp of a wall clock reading, with a counter of zero.
    pub fn from_wall_clock(now_ms: u64) -> (stamp: NTP64)
        ensures
            stamp@ == wall_stamp(now_ms),
    {
        if now_ms <= MILLIS_MAX {
            NTP64(now_ms * COUNTER_RANGE)
        } else {
            NTP64(MILLIS_MAX * COUNTER_RANGE)
        }
    }

    /// Whether `self` comes after `other` in the total order of timestamps.
    pub fn is_after(&self, other: &NTP64) -> (after: bool)
        ensures
            after == (self@ > other@),
    {
        self.0 > other.0
    }

    /// The later of two timestamps: the rule by which two clocks merge.
    pub fn max(self, other: NTP64) -> (later: NTP64)
        ensures
            later@ == if self@ >= other@ { self@ } else { other@ },
    {
        if self.0 >= other.0 {
            self
        } else {
            other
        }
    }

    /// The timestamp to give out after `self` when the wall clock reads
    /// `now_ms`; `None` when no later timestamp exists.
    pub fn succ(&self, now_ms: u64) -> (next: Option<NTP64>)
        ensures
            next.is_some() == next_stamp(self@ as int, now_ms).is_some(),
            next.is_some() ==> next.unwrap()@ == next_stamp(self@ as int, now_ms).unwrap(),
            next.is_some() ==> next.unwrap()@ > self@,
    {
        let wall = NTP64::from_wall_clock(now_ms);
        if wall.0 > self.0 {
            Some(wall)
        } else if self.0 < u64::MAX {
            Some(NTP64(self.0 + 1))
        } else {
            None
        }
    }
}

} // verus!
