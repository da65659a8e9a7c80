//! Consumption readings: how much was used over one metering interval.

use crate::time::Timestamp;
use vstd::prelude::*;

verus! {

/// Mathematical view of a consumption reading: a quantity used between two
/// instants.
pub struct ReadingView {
    pub quantity: int,
    pub interval_start: int,
    pub interval_end: int,
}

impl ReadingView {
    /// The quantity is not negative and the interval is not empty.
    pub open spec fn well_formed(self) -> bool {
        &&& 0 <= self.quantity
        &&& self.interval_start < self.interval_end
    }
}

/// Why a reading was refused.
#[derive(Clone, Copy, Debug, PartialEq, Eq, Structural)]
pub enum ReadingError {
    /// The interval ends at or before its start.
    EmptyInterval,
}

/// The quantity consumed over one metering interval, in the caller's
/// quantity units.
#[derive(Clone, Copy, Debug, PartialEq, Eq)]
pub struct ConsumptionReading {
    quantity: u32,
    interval_start: Timestamp,
    interval_end: Timestamp,
}

impl View for ConsumptionReading {
    type V = ReadingView;

    closed spec fn view(&self) -> ReadingView {
        ReadingView {
            quantity: self.quantity as int,
            interval_start: self.interval_start@,
            interval_end: self.interval_end@,
        }
    }
}

/// The views of a sequence of readings, in the same order.
pub open spec fn reading_views(readings: Seq<ConsumptionReading>) -> Seq<ReadingView> {
    readings.map_values(|r: ConsumptionReading| r@)
}

impl ConsumptionReading {
    #[verifier::type_invariant]
    spec fn interval_not_empty(self) -> bool {
        self@.well_formed()
    }

    /// A reading of `quantity` over the interval from `interval_start` to
    /// `interval_end`. Refused unless the interval starts before it ends.
    pub fn new(quantity: u32, interval_start: Timestamp, interval_end: Timestamp) -> (r: Result<
        ConsumptionReading,
        ReadingError,
    >)
        ensures
            match r {
                Ok(reading) => {
                    &&& interval_start@ < interval_end@
                    &&& reading@.quantity == quantity
                    &&& reading@.interval_start == interval_start@
                    &&& reading@.interval_end == interval_end@
                },
                Err(e) => e == ReadingError::EmptyInterval && interval_start@ >= interval_end@,
            },
    {
        if interval_start.secs() < interval_end.secs() {
            Ok(ConsumptionReading { quantity, interval_start, interval_end })
        } else {
            Err(ReadingError::EmptyInterval)
        }
    }

    /// The quantity consumed.
    pub fn quantity(&self) -> (q: u32)
        ensures
            q == self@.quantity,
    {
        self.quantity
    }

    /// The instant at which the interval starts.
    pub fn interval_start(&self) -> (t: Timestamp)
        ensures
            t@ == self@.interval_start,
            self@.well_formed(),
    {
        proof {
            use_type_invariant(self);
        }
        self.interval_start
    }

    /// The instant at which the interval ends.
    pub fn interval_end(&self) -> (t: Timestamp)
        ensures
            t@ == self@.interval_end,
            self@.well_formed(),
    {
        proof {
            use_type_invariant(self);
        }
        self.interval_end
    }
}

} // verus!
