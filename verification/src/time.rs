//! Points in time and date ranges, and the choice of the preset period that
//! comes closest to a range.

use vstd::prelude::*;
use chrono::Datelike;

verus! {

/// The calendar date (year, month, day) in UTC of the moment `secs` seconds
/// after 1970-01-01T00:00:00Z, or `None` where the calendar does not reach.
pub uninterp spec fn utc_calendar_date(secs: int) -> Option<(int, int, int)>;

/// Every timestamp from this many seconds before the epoch to this many
/// after it has a calendar date: the years from about -251 500 to 255 400.
pub const TIMESTAMP_REACH: i64 = 8_000_000_000_000;

/// `chrono::DateTime::from_timestamp` with no nanoseconds, read through
/// `Datelike::year`, `month` and `day`: the UTC calendar date of a Unix
/// timestamp, `None` where chrono cannot represent the moment. Chrono
/// represents the years -262 143 to 262 142, so every timestamp within
/// `TIMESTAMP_REACH` of the epoch has a date.
#[verifier::external_body]
fn calendar_date(secs: i64) -> (r: Option<(i32, u32, u32)>)
    ensures
        match r {
            Some(date) => utc_calendar_date(secs as int) == Some(
                (date.0 as int, date.1 as int, date.2 as int),
            ),
            None => utc_calendar_date(secs as int) is None,
        },
        -TIMESTAMP_REACH <= secs <= TIMESTAMP_REACH ==> r is Some,
{
    chrono::DateTime::from_timestamp(secs, 0).map(|t| (t.year(), t.month(), t.day()))
}

/// A moment in UTC, held as its Unix timestamp in seconds together with its
/// calendar date.
#[derive(Clone, Copy, Debug)]
pub struct UtcDateTime {
    timestamp: i64,
    year: i32,
    month: u32,
    day: u32,
}

impl UtcDateTime {
    /// Seconds since 1970-01-01T00:00:00Z.
    pub closed spec fn seconds(&self) -> int {
        self.timestamp as int
    }

    /// The calendar date: year, month (from 1) and day of the month (from 1).
    pub closed spec fn date(&self) -> (int, int, int) {
        (self.year as int, self.month as int, self.day as int)
    }

    /// The moment `secs` seconds after the epoch, where the calendar reaches
    /// it, as it does within `TIMESTAMP_REACH` of the epoch.
    pub fn from_timestamp(secs: i64) -> (r: Option<UtcDateTime>)
        ensures
            match r {
                Some(t) => t.seconds() == secs && utc_calendar_date(secs as int) == Some(t.date()),
                None => utc_calendar_date(secs as int) is None,
            },
            -TIMESTAMP_REACH <= secs <= TIMESTAMP_REACH ==> r is Some,
    {
        match calendar_date(secs) {
            Some((year, month, day)) => Some(UtcDateTime { timestamp: secs, year, month, day }),
            None => None,
        }
    }

    pub fn timestamp(&self) -> (r: i64)
        ensures
            r == self.seconds(),
    {
        self.timestamp
    }

    pub fn year(&self) -> (r: i32)
        ensures
            r == self.date().0,
    {
        self.year
    }

    pub fn month(&self) -> (r: u32)
        ensures
            r == self.date().1,
    {
        self.month
    }

    pub fn day(&self) -> (r: u32)
        ensures
            r == self.date().2,
    {
        self.day
    }

    /// Whole days between the epoch and this moment, rounded towards the epoch.
    pub open spec fn epoch_days(&self) -> int {
        whole_days(self.seconds())
    }

    /// Whole days between the epoch and this moment, rounded towards the epoch.
    pub fn days_since_epoch(&self) -> (r: i64)
        ensures
            r == self.epoch_days(),
    {
        self.timestamp / 86_400
    }
}

/// The number of whole days in `secs` seconds, rounded towards zero.
pub open spec fn whole_days(secs: int) -> int {
    if secs >= 0 {
        secs / 86_400
    } else {
        -((-secs) / 86_400)
    }
}

/// A range of time between two moments.
#[derive(Clone, Copy, Debug)]
pub struct DateTimeRange {
    pub start: UtcDateTime,
    pub end: UtcDateTime,
}

/// The distance between a duration and a preset, both in seconds.
pub open spec fn distance(duration: int, preset: int) -> int {
    if duration >= preset {
        duration - preset
    } else {
        preset - duration
    }
}

/// The index of the preset closest to `duration` among the first `n`; of
/// several equally close ones the first.
pub open spec fn closest_among(duration: int, presets: Seq<int>, n: int) -> int
    decreases n,
{
    if n <= 1 {
        0
    } else {
        let best = closest_among(duration, presets, n - 1);
        if distance(duration, presets[n - 1]) < distance(duration, presets[best]) {
            n - 1
        } else {
            best
        }
    }
}

/// The index of the preset closest to `duration`; of several equally close
/// ones the first.
pub open spec fn closest_preset(duration: int, presets: Seq<int>) -> int {
    closest_among(duration, presets, presets.len() as int)
}

/// The durations of a list of labelled presets.
pub open spec fn durations<T>(presets: Seq<(i64, T)>) -> Seq<int> {
    Seq::new(presets.len(), |i: int| presets[i].0 as int)
}

impl DateTimeRange {
    /// The length of the range in seconds: negative when `end` lies before
    /// `start`.
    pub open spec fn duration(&self) -> int {
        self.end.seconds() - self.start.seconds()
    }

    /// The label of the preset whose duration in seconds is closest to the
    /// length of the range; of several equally close ones the first listed.
    pub fn find_closest_preset<T: Copy>(&self, presets: &[(i64, T)]) -> (label: T)
        requires
            presets@.len() > 0,
        ensures
            label == presets@[closest_preset(self.duration(), durations(presets@))].1,
    {
        let duration: i128 = self.end.timestamp() as i128 - self.start.timestamp() as i128;
        let ghost ds = durations(presets@);
        let mut best: usize = 0;
        let mut i: usize = 1;
        while i < presets.len()
            invariant
                1 <= i <= presets.len(),
                best < i,
                ds == durations(presets@),
                duration == self.duration(),
                best == closest_among(duration as int, ds, i as int),
            decreases presets.len() - i,
        {
            if gap(duration, presets[i].0) < gap(duration, presets[best].0) {
                best = i;
            }
            i += 1;
        }
        presets[best].1
    }
}

/// Whether the presets stand in strictly ascending order.
pub open spec fn ascending(presets: Seq<int>) -> bool {
    forall|i: int, j: int| 0 <= i < j < presets.len() ==> presets[i] < presets[j]
}

/// The chosen preset is at least as close as every other one, and strictly
/// closer than every one listed before it.
pub proof fn lemma_closest_among(duration: int, presets: Seq<int>, n: int)
    requires
        1 <= n <= presets.len(),
    ensures
        0 <= closest_among(duration, presets, n) < n,
        forall|j: int|
            0 <= j < n ==> distance(duration, presets[closest_among(duration, presets, n)])
                <= distance(duration, #[trigger] presets[j]),
        forall|j: int|
            0 <= j < closest_among(duration, presets, n) ==> distance(
                duration,
                presets[closest_among(duration, presets, n)],
            ) < distance(duration, #[trigger] presets[j]),
    decreases n,
{
    if n > 1 {
        lemma_closest_among(duration, presets, n - 1);
    }
}

/// A duration that equals one of the presets selects a preset of that very
/// duration.
pub proof fn lemma_exact_preset_selected(duration: int, presets: Seq<int>, k: int)
    requires
        0 <= k < presets.len(),
        presets[k] == duration,
    ensures
        0 <= closest_preset(duration, presets) < presets.len(),
        presets[closest_preset(duration, presets)] == duration,
{
    lemma_closest_among(duration, presets, presets.len() as int);
    assert(distance(duration, presets[k]) == 0);
}

/// With ascending presets, a duration that lies between two neighbouring
/// presets selects the closer of the two, and the smaller one when both are
/// equally close.
pub proof fn lemma_closer_neighbour_selected(duration: int, presets: Seq<int>, k: int)
    requires
        ascending(presets),
        0 <= k,
        k + 1 < presets.len(),
        presets[k] <= duration <= presets[k + 1],
    ensures
        closest_preset(duration, presets) == if duration - presets[k] <= presets[k + 1] - duration {
            k
        } else {
            k + 1
        },
{
    lemma_closest_among(duration, presets, presets.len() as int);
    let c = closest_preset(duration, presets);
    assert(distance(duration, presets[c]) <= distance(duration, presets[k]));
    assert(distance(duration, presets[c]) <= distance(duration, presets[k + 1]));
    if c < k {
        assert(presets[c] < presets[k]);
    } else if c > k + 1 {
        assert(presets[k + 1] < presets[c]);
    }
}

/// With ascending presets, a duration no longer than the first preset selects
/// the first, and one no shorter than the last selects the last.
pub proof fn lemma_outside_presets(duration: int, presets: Seq<int>)
    requires
        ascending(presets),
        presets.len() > 0,
    ensures
        duration <= presets[0] ==> closest_preset(duration, presets) == 0,
        duration >= presets[presets.len() - 1] ==> closest_preset(duration, presets)
            == presets.len() - 1,
{
    lemma_closest_among(duration, presets, presets.len() as int);
    let c = closest_preset(duration, presets);
    let last = presets.len() - 1;
    assert(distance(duration, presets[c]) <= distance(duration, presets[0]));
    assert(distance(duration, presets[c]) <= distance(duration, presets[last]));
    if duration <= presets[0] && c > 0 {
        assert(presets[0] < presets[c]);
    }
    if duration >= presets[last] && c < last {
        assert(presets[c] < presets[last]);
    }
}

fn gap(duration: i128, preset: i64) -> (r: i128)
    requires
        i64::MIN - i64::MAX <= duration <= i64::MAX - i64::MIN,
    ensures
        r == distance(duration as int, preset as int),
{
    let preset: i128 = preset as i128;
    if duration >= preset {
        duration - preset
    } else {
        preset - duration
    }
}

} // verus!
