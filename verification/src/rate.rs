//! Rate periods and the ordered index that is searched for the period in
//! force at an instant.

use crate::time::Timestamp;
use vstd::prelude::*;

verus! {

/// Where an instant, or an interval, lies relative to a rate period's window.
#[derive(Clone, Copy, Debug, PartialEq, Eq, Structural)]
pub enum Placement {
    /// The search must go on among earlier periods.
    Less,
    /// The period is in force.
    Equal,
    /// The search must go on among later periods.
    Greater,
}

/// Mathematical view of a rate period: a price and the window over which it
/// applies, bounds included. `valid_to == None` means the price is still in
/// effect.
pub struct PeriodView {
    pub value: int,
    pub valid_from: int,
    pub valid_to: Option<int>,
}

impl PeriodView {
    /// The window does not end before it starts.
    pub open spec fn well_formed(self) -> bool {
        self.valid_to matches Some(end) ==> self.valid_from <= end
    }

    /// Three-way placement of `instant` against the window: before its start,
    /// past its end, or within it.
    pub open spec fn placement(self, instant: int) -> Placement {
        if instant < self.valid_from {
            Placement::Less
        } else if self.valid_to matches Some(end) && instant > end {
            Placement::Greater
        } else {
            Placement::Equal
        }
    }

    /// Three-way placement of the interval from `start` to `end`. A window
    /// that holds `start` but closes before `end` is no match: it is placed
    /// as `Less`.
    pub open spec fn interval_placement(self, start: int, end: int) -> Placement {
        if start < self.valid_from {
            Placement::Less
        } else {
            match self.valid_to {
                Some(limit) => if start > limit {
                    Placement::Greater
                } else if limit < end {
                    Placement::Less
                } else {
                    Placement::Equal
                },
                None => Placement::Equal,
            }
        }
    }

    /// The period is in force at `instant`.
    pub open spec fn covers(self, instant: int) -> bool {
        &&& self.valid_from <= instant
        &&& self.valid_to matches Some(end) ==> instant <= end
    }

    /// The period is in force at `start` and does not close before `end`.
    pub open spec fn covers_interval(self, start: int, end: int) -> bool {
        &&& self.covers(start)
        &&& self.valid_to matches Some(limit) ==> end <= limit
    }
}

/// The periods are in ascending order and no two of them overlap: each one
/// closes, and does so no later than any following one opens. Two periods may
/// share the instant at which one closes and the next opens, and may leave a
/// gap between them.
pub open spec fn in_order(periods: Seq<PeriodView>) -> bool {
    forall|i: int, j: int|
        0 <= i < j < periods.len() ==> ((#[trigger] periods[i]).valid_to matches Some(end) && end
            <= (#[trigger] periods[j]).valid_from)
}

/// Every period is well formed, and together they are in order.
pub open spec fn index_well_formed(periods: Seq<PeriodView>) -> bool {
    &&& forall|i: int| 0 <= i < periods.len() ==> (#[trigger] periods[i]).well_formed()
    &&& in_order(periods)
}

/// The period at `position` and its successor break the order of an index:
/// the first never closes, or closes after the second opens.
pub open spec fn conflict_at(periods: Seq<PeriodView>, position: int) -> bool {
    &&& 0 <= position
    &&& position + 1 < periods.len()
    &&& !(periods[position].valid_to matches Some(end) && end <= periods[position + 1].valid_from)
}

/// The greatest position below `n` whose period is in force at `instant`.
pub open spec fn last_covering(periods: Seq<PeriodView>, instant: int, n: nat) -> Option<int>
    decreases n,
{
    if n == 0 {
        None
    } else if periods[n - 1].covers(instant) {
        Some(n - 1)
    } else {
        last_covering(periods, instant, (n - 1) as nat)
    }
}

/// The position of the period in force at `instant`; where a period closes at
/// the very instant the next one opens, the later one.
pub open spec fn lookup(periods: Seq<PeriodView>, instant: int) -> Option<int> {
    last_covering(periods, instant, periods.len())
}

/// The position of the one period in force over the whole interval from
/// `start` to `end`: the period found at `start`, unless it closes before
/// `end`.
pub open spec fn lookup_interval(periods: Seq<PeriodView>, start: int, end: int) -> Option<int> {
    match lookup(periods, start) {
        Some(i) => if periods[i].covers_interval(start, end) {
            Some(i)
        } else {
            None
        },
        None => None,
    }
}

/// `last_covering` returns a position below `n` that is in force, above which
/// no position below `n` is; or nothing when no position below `n` is in
/// force.
pub proof fn lemma_last_covering(periods: Seq<PeriodView>, instant: int, n: nat)
    requires
        n <= periods.len(),
    ensures
        match last_covering(periods, instant, n) {
            Some(i) => {
                &&& 0 <= i < n
                &&& periods[i].covers(instant)
                &&& forall|j: int| i < j < n ==> !(#[trigger] periods[j]).covers(instant)
            },
            None => forall|j: int| 0 <= j < n ==> !(#[trigger] periods[j]).covers(instant),
        },
    decreases n,
{
    if n > 0 && !periods[n - 1].covers(instant) {
        lemma_last_covering(periods, instant, (n - 1) as nat);
    }
}

/// Whatever position is in force with none in force above it is the one that
/// `lookup` gives.
pub proof fn lemma_lookup_unique(periods: Seq<PeriodView>, instant: int, i: int)
    requires
        0 <= i < periods.len(),
        periods[i].covers(instant),
        forall|j: int| i < j < periods.len() ==> !(#[trigger] periods[j]).covers(instant),
    ensures
        lookup(periods, instant) == Some(i),
{
    lemma_last_covering(periods, instant, periods.len());
}

/// Why a period was refused.
#[derive(Clone, Copy, Debug, PartialEq, Eq, Structural)]
pub enum PeriodError {
    /// The window closes before it opens.
    ClosesBeforeOpening,
}

/// A price and the window of time over which it applies.
#[derive(Clone, Copy, Debug, PartialEq, Eq)]
pub struct RatePeriod {
    value: i32,
    valid_from: Timestamp,
    valid_to: Option<Timestamp>,
}

impl View for RatePeriod {
    type V = PeriodView;

    closed spec fn view(&self) -> PeriodView {
        PeriodView {
            value: self.value as int,
            valid_from: self.valid_from@,
            valid_to: match self.valid_to {
                Some(end) => Some(end@),
                None => None,
            },
        }
    }
}

impl RatePeriod {
    #[verifier::type_invariant]
    spec fn window_well_formed(self) -> bool {
        self@.well_formed()
    }

    /// A period of price `value`, in force from `valid_from` up to and
    /// including `valid_to`, or without end when `valid_to` is `None`.
    /// Refused when the window would close before it opens.
    pub fn new(value: i32, valid_from: Timestamp, valid_to: Option<Timestamp>) -> (r: Result<
        RatePeriod,
        PeriodError,
    >)
        ensures
            match r {
                Ok(p) => {
                    &&& p@.value == value
                    &&& p@.valid_from == valid_from@
                    &&& match valid_to {
                        Some(end) => p@.valid_to == Some(end@) && valid_from@ <= end@,
                        None => p@.valid_to is None,
                    }
                },
                Err(e) => {
                    &&& e == PeriodError::ClosesBeforeOpening
                    &&& valid_to matches Some(end) && end@ < valid_from@
                },
            },
    {
        if let Some(end) = valid_to {
            if end.secs() < valid_from.secs() {
                return Err(PeriodError::ClosesBeforeOpening);
            }
        }
        Ok(RatePeriod { value, valid_from, valid_to })
    }

    /// The price, in the caller's price units.
    pub fn value(&self) -> (v: i32)
        ensures
            v == self@.value,
    {
        self.value
    }

    /// The first instant at which the price applies.
    pub fn valid_from(&self) -> (t: Timestamp)
        ensures
            t@ == self@.valid_from,
    {
        self.valid_from
    }

    /// The last instant at which the price applies, if the window closes.
    pub fn valid_to(&self) -> (t: Option<Timestamp>)
        ensures
            match t {
                Some(end) => self@.valid_to == Some(end@),
                None => self@.valid_to is None,
            },
            self@.well_formed(),
    {
        proof {
            use_type_invariant(self);
        }
        self.valid_to
    }

    /// Places `instant` against this period's window.
    pub fn compare_instant(&self, instant: Timestamp) -> (r: Placement)
        ensures
            r == self@.placement(instant@),
    {
        let at: i64 = instant.secs();
        if at < self.valid_from.secs() {
            return Placement::Less;
        }
        if let Some(end) = self.valid_to {
            if at > end.secs() {
                return Placement::Greater;
            }
        }
        Placement::Equal
    }

    /// Places the interval from `start` to `end` against this period's
    /// window.
    pub fn compare_interval(&self, start: Timestamp, end: Timestamp) -> (r: Placement)
        ensures
            r == self@.interval_placement(start@, end@),
    {
        let at: i64 = start.secs();
        if at < self.valid_from.secs() {
            return Placement::Less;
        }
        if let Some(limit) = self.valid_to {
            let closes: i64 = limit.secs();
            if at > closes {
                return Placement::Greater;
            }
            if closes < end.secs() {
                return Placement::Less;
            }
        }
        Placement::Equal
    }
}

/// Why a sequence of periods was refused as an index.
#[derive(Clone, Copy, Debug, PartialEq, Eq, Structural)]
pub enum IndexError {
    /// The period at `position` never closes, yet another follows it.
    OpenEnded { position: usize },
    /// The period at `position` closes after the one that follows it opens.
    Overlap { position: usize },
}

/// `error` reports the first pair of neighbours that breaks the order of
/// `periods`, and how the earlier of the two breaks it.
pub open spec fn is_first_conflict(periods: Seq<PeriodView>, error: IndexError) -> bool {
    match error {
        IndexError::OpenEnded { position } => {
            &&& conflict_at(periods, position as int)
            &&& periods[position as int].valid_to is None
            &&& forall|j: int| 0 <= j < position ==> !conflict_at(periods, j)
        },
        IndexError::Overlap { position } => {
            &&& conflict_at(periods, position as int)
            &&& periods[position as int].valid_to is Some
            &&& forall|j: int| 0 <= j < position ==> !conflict_at(periods, j)
        },
    }
}

/// The views of a sequence of periods, in the same order.
pub open spec fn period_views(periods: Seq<RatePeriod>) -> Seq<PeriodView> {
    periods.map_values(|p: RatePeriod| p@)
}

/// Periods that are well formed, with no conflict between neighbours, are in
/// order as a whole.
pub proof fn lemma_neighbours_in_order(periods: Seq<PeriodView>)
    requires
        forall|i: int| 0 <= i < periods.len() ==> (#[trigger] periods[i]).well_formed(),
        forall|i: int| 0 <= i ==> !conflict_at(periods, i),
    ensures
        in_order(periods),
{
    assert forall|i: int, j: int| 0 <= i < j < periods.len() implies ((
    #[trigger] periods[i]).valid_to matches Some(end) && end <= (
    #[trigger] periods[j]).valid_from) by {
        lemma_closes_before(periods, i, j);
    }
}

proof fn lemma_closes_before(periods: Seq<PeriodView>, i: int, j: int)
    requires
        forall|k: int| 0 <= k < periods.len() ==> (#[trigger] periods[k]).well_formed(),
        forall|k: int| 0 <= k ==> !conflict_at(periods, k),
        0 <= i < j < periods.len(),
    ensures
        periods[i].valid_to matches Some(end) && end <= periods[j].valid_from,
    decreases j - i,
{
    assert(!conflict_at(periods, i));
    if i + 1 < j {
        lemma_closes_before(periods, i + 1, j);
        assert(periods[i + 1].well_formed());
    }
}

/// Rate periods in ascending order, none overlapping another, searched by
/// instant or by interval.
#[derive(Debug, PartialEq, Eq)]
pub struct RatePeriodIndex {
    periods: Vec<RatePeriod>,
}

impl View for RatePeriodIndex {
    type V = Seq<PeriodView>;

    closed spec fn view(&self) -> Seq<PeriodView> {
        period_views(self.periods@)
    }
}

impl RatePeriodIndex {
    #[verifier::type_invariant]
    spec fn ordered(self) -> bool {
        index_well_formed(self@)
    }

    /// An index over `periods`, which must be in ascending order without
    /// overlap. Otherwise the first pair of neighbours that breaks the order
    /// is reported.
    pub fn new(periods: Vec<RatePeriod>) -> (r: Result<RatePeriodIndex, IndexError>)
        ensures
            match r {
                Ok(index) => index@ == period_views(periods@) && index_well_formed(index@),
                Err(error) => is_first_conflict(period_views(periods@), error),
            },
    {
        let ghost views = period_views(periods@);
        let n: usize = periods.len();
        let mut i: usize = 0;
        while i < n
            invariant
                views == period_views(periods@),
                n == periods.len(),
                i <= n,
                forall|j: int| 0 <= j < i ==> !conflict_at(views, j),
                forall|j: int| 0 <= j < i ==> (#[trigger] views[j]).well_formed(),
            decreases n - i,
        {
            let closes: Option<Timestamp> = periods[i].valid_to();
            assert(views[i as int] == periods@[i as int]@);
            if i + 1 < n {
                assert(views[i + 1] == periods@[i + 1]@);
                let opens: i64 = periods[i + 1].valid_from().secs();
                match closes {
                    None => {
                        return Err(IndexError::OpenEnded { position: i });
                    },
                    Some(end) => {
                        if end.secs() > opens {
                            return Err(IndexError::Overlap { position: i });
                        }
                    },
                }
            }
            i = i + 1;
        }
        proof {
            lemma_neighbours_in_order(views);
        }
        Ok(RatePeriodIndex { periods })
    }

    /// The number of periods.
    pub fn len(&self) -> (n: usize)
        ensures
            n == self@.len(),
            index_well_formed(self@),
    {
        proof {
            use_type_invariant(self);
        }
        self.periods.len()
    }

    /// The period at `position`, counted from the earliest.
    pub fn get(&self, position: usize) -> (r: Option<&RatePeriod>)
        ensures
            match r {
                Some(p) => position < self@.len() && p@ == self@[position as int],
                None => position >= self@.len(),
            },
    {
        if position < self.periods.len() {
            Some(&self.periods[position])
        } else {
            None
        }
    }

    /// The position of the period in force at `instant`, found by binary
    /// search with `RatePeriod::compare_instant`.
    pub fn position(&self, instant: Timestamp) -> (r: Option<usize>)
        ensures
            match r {
                Some(i) => lookup(self@, instant@) == Some(i as int),
                None => lookup(self@, instant@) is None,
            },
    {
        proof {
            use_type_invariant(self);
        }
        let ghost periods = self@;
        let ghost at = instant@;
        let mut lo: usize = 0;
        let mut hi: usize = self.periods.len();
        let mut found: Option<usize> = None;
        while lo < hi
            invariant
                periods == period_views(self.periods@),
                index_well_formed(periods),
                at == instant@,
                lo <= hi <= periods.len(),
                found matches Some(b) ==> b < lo && periods[b as int].covers(at),
                forall|j: int|
                    0 <= j < lo && (#[trigger] periods[j]).covers(at) ==> (found matches Some(b)
                        && j <= b),
                forall|j: int| hi <= j < periods.len() ==> !(#[trigger] periods[j]).covers(at),
            decreases hi - lo,
        {
            let mid: usize = lo + (hi - lo) / 2;
            assert(periods[mid as int] == self.periods@[mid as int]@);
            assert(periods[mid as int].well_formed());
            match self.periods[mid].compare_instant(instant) {
                Placement::Less => {
                    hi = mid;
                },
                Placement::Equal => {
                    found = Some(mid);
                    lo = mid + 1;
                },
                Placement::Greater => {
                    lo = mid + 1;
                },
            }
        }
        proof {
            match found {
                Some(b) => {
                    lemma_lookup_unique(periods, at, b as int);
                },
                None => {
                    lemma_last_covering(periods, at, periods.len());
                },
            }
        }
        found
    }

    /// The period in force at `instant`; where one period closes at the very
    /// instant the next opens, the later one. `None` when no period is in
    /// force: no neighbouring period stands in for a missing one.
    pub fn find(&self, instant: Timestamp) -> (r: Option<&RatePeriod>)
        ensures
            match lookup(self@, instant@) {
                Some(i) => r matches Some(p) && p@ == self@[i],
                None => r is None,
            },
    {
        proof {
            lemma_last_covering(self@, instant@, self@.len());
        }
        match self.position(instant) {
            Some(i) => Some(&self.periods[i]),
            None => None,
        }
    }

    /// The position of the one period in force over the whole interval from
    /// `start` to `end`.
    pub fn position_of_interval(&self, start: Timestamp, end: Timestamp) -> (r: Option<usize>)
        ensures
            match r {
                Some(i) => lookup_interval(self@, start@, end@) == Some(i as int),
                None => lookup_interval(self@, start@, end@) is None,
            },
    {
        proof {
            lemma_last_covering(self@, start@, self@.len());
        }
        match self.position(start) {
            Some(i) => match self.periods[i].compare_interval(start, end) {
                Placement::Equal => Some(i),
                _ => None,
            },
            None => None,
        }
    }

    /// The one period in force over the whole interval from `start` to
    /// `end`. A period in force at `start` that closes before `end` is
    /// refused, and nothing is returned in its place.
    pub fn find_interval(&self, start: Timestamp, end: Timestamp) -> (r: Option<&RatePeriod>)
        ensures
            match lookup_interval(self@, start@, end@) {
                Some(i) => r matches Some(p) && p@ == self@[i],
                None => r is None,
            },
    {
        proof {
            lemma_last_covering(self@, start@, self@.len());
        }
        match self.position_of_interval(start, end) {
            Some(i) => Some(&self.periods[i]),
            None => None,
        }
    }
}

} // verus!
