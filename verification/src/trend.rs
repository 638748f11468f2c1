//! The one-rep-max trend: for each of the eight most recent months the
//! heaviest weight recorded in it, or the best of the months before it in
//! the window where that is more.

use vstd::prelude::*;
use crate::calendar::{
    civil_date, civil_from_days, date_layout, format_date, formatted_date, month_label_layout,
    today_local,
};
use crate::database_handler::OneRepMaxes;
use crate::text::{in_range, text_in_range, texts};

verus! {

/// A month of a year. `month` runs from 1 to 12.
#[derive(Clone, Copy, Debug, PartialEq, Eq, Structural)]
pub struct Month {
    pub year: i32,
    pub month: u32,
}

impl Month {
    /// Whether the month is one of the twelve.
    pub open spec fn is_valid(&self) -> bool {
        1 <= self.month <= 12
    }
}

/// The year and month that lie `back` months before the month `month`
/// of `year`.
pub open spec fn month_before(year: int, month: int, back: int) -> (int, int) {
    let n = year * 12 + (month - 1) - back;
    (n / 12, n % 12 + 1)
}

/// The eight most recent months, oldest first: entry `k` lies `7 - k`
/// months before the month `month` of `year`.
pub fn recent_months(year: i32, month: u32) -> (months: Vec<Month>)
    requires
        1 <= month <= 12,
        year > i32::MIN,
    ensures
        months@.len() == 8,
        forall|k: int|
            0 <= k < 8 ==> (#[trigger] months@[k].year as int, months@[k].month as int)
                == month_before(year as int, month as int, 7 - k),
        forall|k: int| 0 <= k < 8 ==> (#[trigger] months@[k]).is_valid(),
{
    let mut months: Vec<Month> = Vec::new();
    let mut k: u32 = 0;
    while k < 8
        invariant
            k <= 8,
            1 <= month <= 12,
            year > i32::MIN,
            months@.len() == k,
            forall|j: int|
                0 <= j < k ==> (#[trigger] months@[j].year as int, months@[j].month as int)
                    == month_before(year as int, month as int, 7 - j),
            forall|j: int| 0 <= j < k ==> (#[trigger] months@[j]).is_valid(),
        decreases 8 - k,
    {
        let back: u32 = 7 - k;
        let entry = if month <= back {
            Month { year: year - 1, month: month + 12 - back }
        } else {
            Month { year, month: month - back }
        };
        months.push(entry);
        k += 1;
    }
    months
}

/// The month after `m`; December is followed by January of the next year.
pub open spec fn following(m: Month) -> (int, int) {
    if m.month == 12 {
        (m.year + 1, 1)
    } else {
        (m.year as int, m.month + 1)
    }
}

/// The month after `m`, unless its year cannot be written.
pub fn next_month(m: Month) -> (next: Option<Month>)
    requires
        m.is_valid(),
    ensures
        match next {
            Some(n) => (n.year as int, n.month as int) == following(m),
            None => following(m).0 > i32::MAX,
        },
{
    if m.month == 12 {
        if m.year == i32::MAX {
            None
        } else {
            Some(Month { year: m.year + 1, month: 1 })
        }
    } else {
        Some(Month { year: m.year, month: m.month + 1 })
    }
}

/// A recorded weight, in grams, with the start time of its workout.
#[derive(Debug)]
pub struct WeightRecord {
    pub start_time: String,
    pub weight: u64,
}

/// What a sequence of weight records holds.
pub open spec fn record_models(records: Seq<WeightRecord>) -> Seq<(Seq<char>, u64)> {
    Seq::new(records.len(), |i: int| (records[i].start_time@, records[i].weight))
}

/// The heaviest weight among the records whose start time lies in the
/// range from `from` up to, and not including, `until`; zero when there is
/// none.
pub open spec fn heaviest_in(records: Seq<(Seq<char>, u64)>, from: Seq<char>, until: Seq<char>)
    -> u64
    decreases records.len(),
{
    if records.len() == 0 {
        0
    } else {
        let rest = heaviest_in(records.drop_last(), from, until);
        let last = records.last();
        if in_range(last.0, from, until) && last.1 > rest {
            last.1
        } else {
            rest
        }
    }
}

/// The heaviest weight recorded in the given range of start times.
pub fn heaviest_weight(records: &Vec<WeightRecord>, from: &str, until: &str) -> (best: u64)
    ensures
        best == heaviest_in(record_models(records@), from@, until@),
{
    let mut best: u64 = 0;
    let mut i: usize = 0;
    let ghost all = record_models(records@);
    while i < records.len()
        invariant
            i <= records@.len(),
            all == record_models(records@),
            best == heaviest_in(all.take(i as int), from@, until@),
        decreases records@.len() - i,
    {
        proof {
            assert(all.take(i + 1).drop_last() =~= all.take(i as int));
            assert(all.take(i + 1).last() == (
                records@[i as int].start_time@,
                records@[i as int].weight,
            ));
        }
        if text_in_range(records[i].start_time.as_str(), from, until) && records[i].weight > best {
            best = records[i].weight;
        }
        i += 1;
    }
    proof {
        assert(all.take(records@.len() as int) =~= all);
    }
    best
}

/// The largest of the first `upto` entries of `monthly`, and zero when
/// `upto` is zero: the best to date.
pub open spec fn best_to_date(monthly: Seq<u64>, upto: int) -> u64
    decreases upto,
{
    if upto <= 0 {
        0
    } else {
        let before = best_to_date(monthly, upto - 1);
        if monthly[upto - 1] > before {
            monthly[upto - 1]
        } else {
            before
        }
    }
}

/// The best-to-date series of `monthly`: entry `i` is the largest of the
/// entries of `monthly` up to and including `i`.
pub open spec fn smoothed(monthly: Seq<u64>) -> Seq<u64> {
    Seq::new(monthly.len(), |i: int| best_to_date(monthly, i + 1))
}

/// The best to date never falls, and is never less than the month's own
/// value.
pub proof fn lemma_best_to_date_grows(monthly: Seq<u64>, i: int, j: int)
    requires
        0 <= i <= j <= monthly.len(),
    ensures
        best_to_date(monthly, i) <= best_to_date(monthly, j),
        j > 0 ==> monthly[j - 1] <= best_to_date(monthly, j),
    decreases j - i,
{
    if i < j {
        lemma_best_to_date_grows(monthly, i, j - 1);
    }
}

/// The smoothed series never decreases, whatever was recorded.
pub proof fn lemma_smoothed_never_decreases(monthly: Seq<u64>)
    ensures
        smoothed(monthly).len() == monthly.len(),
        forall|i: int|
            0 < i < monthly.len() ==> #[trigger] smoothed(monthly)[i] >= smoothed(monthly)[i - 1],
        forall|i: int| 0 <= i < monthly.len() ==> #[trigger] smoothed(monthly)[i] >= monthly[i],
{
    assert forall|i: int| 0 < i < monthly.len() implies #[trigger] smoothed(monthly)[i]
        >= smoothed(monthly)[i - 1] by {
        lemma_best_to_date_grows(monthly, i, i + 1);
    }
    assert forall|i: int| 0 <= i < monthly.len() implies #[trigger] smoothed(monthly)[i]
        >= monthly[i] by {
        lemma_best_to_date_grows(monthly, i + 1, i + 1);
    }
}

/// Carries the running maximum forward over `monthly`.
pub fn smooth(monthly: &Vec<u64>) -> (out: Vec<u64>)
    ensures
        out@ == smoothed(monthly@),
        forall|i: int| 0 < i < out@.len() ==> #[trigger] out@[i] >= out@[i - 1],
{
    let mut out: Vec<u64> = Vec::new();
    let mut best: u64 = 0;
    let mut i: usize = 0;
    while i < monthly.len()
        invariant
            i <= monthly@.len(),
            out@.len() == i,
            best == best_to_date(monthly@, i as int),
            forall|j: int| 0 <= j < i ==> out@[j] == best_to_date(monthly@, j + 1),
        decreases monthly@.len() - i,
    {
        if monthly[i] > best {
            best = monthly[i];
        }
        out.push(best);
        i += 1;
    }
    proof {
        assert(out@ =~= smoothed(monthly@));
        lemma_smoothed_never_decreases(monthly@);
    }
    out
}

/// The range of start times that falls into month `m`: from its first
/// day up to, and not including, the first day of the month after it, both
/// written as dates.
pub open spec fn month_range(m: Month) -> Option<(Seq<char>, Seq<char>)> {
    let next = following(m);
    if next.0 > i32::MAX {
        None
    } else {
        match (
            formatted_date(m.year, m.month, 1, date_layout()),
            formatted_date(next.0 as i32, next.1 as u32, 1, date_layout()),
        ) {
            (Some(from), Some(until)) => Some((from, until)),
            _ => None,
        }
    }
}

/// The label of month `m`.
pub open spec fn month_label(m: Month) -> Option<Seq<char>> {
    formatted_date(m.year, m.month, 1, month_label_layout())
}

/// The heaviest weight recorded in month `m`, where the calendar can name
/// the month's range.
pub open spec fn month_best(records: Seq<(Seq<char>, u64)>, m: Month) -> Option<u64> {
    match month_range(m) {
        Some((from, until)) => Some(heaviest_in(records, from, until)),
        None => None,
    }
}

/// The heaviest weight recorded in month `m`.
pub fn heaviest_in_month(records: &Vec<WeightRecord>, m: Month) -> (best: Option<u64>)
    requires
        m.is_valid(),
    ensures
        best == month_best(record_models(records@), m),
{
    let next = match next_month(m) {
        Some(n) => n,
        None => {
            return None;
        },
    };
    let from = match format_date(m.year, m.month, 1, "%Y-%m-%d") {
        Some(text) => text,
        None => {
            return None;
        },
    };
    let until = match format_date(next.year, next.month, 1, "%Y-%m-%d") {
        Some(text) => text,
        None => {
            return None;
        },
    };
    Some(heaviest_weight(records, from.as_str(), until.as_str()))
}

/// The heaviest weight of each of `months`, where the calendar can name
/// every month's range.
pub open spec fn monthly_bests(records: Seq<(Seq<char>, u64)>, months: Seq<Month>) -> Option<
    Seq<u64>,
>
    decreases months.len(),
{
    if months.len() == 0 {
        Some(Seq::empty())
    } else {
        match (
            monthly_bests(records, months.drop_last()),
            month_best(records, months.last()),
        ) {
            (Some(before), Some(best)) => Some(before.push(best)),
            _ => None,
        }
    }
}

/// The labels of `months`, where the calendar can name every month.
pub open spec fn month_labels(months: Seq<Month>) -> Option<Seq<Seq<char>>>
    decreases months.len(),
{
    if months.len() == 0 {
        Some(Seq::empty())
    } else {
        match (month_labels(months.drop_last()), month_label(months.last())) {
            (Some(before), Some(label)) => Some(before.push(label)),
            _ => None,
        }
    }
}

/// The one-rep-max trend over `months`: the months' labels, and for each
/// month the heaviest weight recorded in it or in an earlier one of
/// `months`. `None` where the calendar cannot name one of the months.
pub open spec fn trend_over(records: Seq<(Seq<char>, u64)>, months: Seq<Month>) -> Option<
    (Seq<Seq<char>>, Seq<u64>),
> {
    match (month_labels(months), monthly_bests(records, months)) {
        (Some(labels), Some(bests)) => Some((labels, smoothed(bests))),
        _ => None,
    }
}

/// Whether `trend` is the value `expected`.
pub open spec fn is_trend(trend: Option<OneRepMaxes>, expected: Option<(Seq<Seq<char>>, Seq<u64>)>)
    -> bool {
    match trend {
        Some(t) => expected == Some((texts(t.labels@), t.data@)),
        None => expected is None,
    }
}

/// Whether the series of `trend` has one entry for each of `count` months
/// and never decreases.
pub open spec fn is_rising(trend: OneRepMaxes, count: int) -> bool {
    &&& trend.labels@.len() == count
    &&& trend.data@.len() == count
    &&& forall|i: int| 0 < i < count ==> #[trigger] trend.data@[i] >= trend.data@[i - 1]
}

/// The one-rep-max trend of `records` over `months`, oldest month first.
/// The series never decreases.
pub fn trend_over_months(records: &Vec<WeightRecord>, months: &Vec<Month>) -> (trend: Option<
    OneRepMaxes,
>)
    requires
        forall|k: int| 0 <= k < months@.len() ==> (#[trigger] months@[k]).is_valid(),
    ensures
        is_trend(trend, trend_over(record_models(records@), months@)),
        trend is Some ==> is_rising(trend->0, months@.len() as int),
{
    let mut labels: Vec<String> = Vec::new();
    let mut bests: Vec<u64> = Vec::new();
    let mut k: usize = 0;
    let ghost all = record_models(records@);
    proof {
        assert(texts(labels@) =~= Seq::<Seq<char>>::empty());
    }
    while k < months.len()
        invariant
            k <= months@.len(),
            all == record_models(records@),
            forall|j: int| 0 <= j < months@.len() ==> (#[trigger] months@[j]).is_valid(),
            month_labels(months@.take(k as int)) == Some(texts(labels@)),
            monthly_bests(all, months@.take(k as int)) == Some(bests@),
            labels@.len() == k && bests@.len() == k,
        decreases months@.len() - k,
    {
        let m = months[k];
        proof {
            assert(months@.take(k + 1).drop_last() =~= months@.take(k as int));
            assert(months@.take(k + 1).last() == m);
        }
        let ghost old_labels = texts(labels@);
        let label = format_date(m.year, m.month, 1, "%b");
        let best = heaviest_in_month(records, m);
        match (label, best) {
            (Some(text), Some(weight)) => {
                labels.push(text);
                bests.push(weight);
                proof {
                    assert(texts(labels@) =~= old_labels.push(text@));
                }
            },
            _ => {
                proof {
                    lemma_trend_fails_from(all, months@, k + 1);
                }
                return None;
            },
        }
        k += 1;
    }
    proof {
        assert(months@.take(months@.len() as int) =~= months@);
    }
    let data = smooth(&bests);
    Some(OneRepMaxes { labels, data })
}

/// Once the calendar fails to name one of the first `n` months, it fails
/// for all of `months`.
proof fn lemma_trend_fails_from(records: Seq<(Seq<char>, u64)>, months: Seq<Month>, n: int)
    requires
        0 <= n <= months.len(),
        month_labels(months.take(n)) is None || monthly_bests(records, months.take(n)) is None,
    ensures
        trend_over(records, months) is None,
    decreases months.len() - n,
{
    if n == months.len() {
        assert(months.take(n) =~= months);
    } else {
        assert(months.take(n + 1).drop_last() =~= months.take(n));
        lemma_trend_fails_from(records, months, n + 1);
    }
}

/// The eight most recent months as of the month `month` of `year`,
/// oldest first.
pub open spec fn recent(year: int, month: int) -> Seq<Month> {
    Seq::new(
        8,
        |k: int|
            Month {
                year: month_before(year, month, 7 - k).0 as i32,
                month: month_before(year, month, 7 - k).1 as u32,
            },
    )
}

/// The one-rep-max trend of `records` over the eight most recent months
/// as of the month `month` of `year`.
pub fn one_rep_max_trend(year: i32, month: u32, records: &Vec<WeightRecord>) -> (trend: Option<
    OneRepMaxes,
>)
    requires
        1 <= month <= 12,
        year > i32::MIN,
    ensures
        is_trend(trend, trend_over(record_models(records@), recent(year as int, month as int))),
        trend is Some ==> is_rising(trend->0, 8),
{
    let months = recent_months(year, month);
    proof {
        assert forall|k: int| 0 <= k < 8 implies months@[k] == recent(
            year as int,
            month as int,
        )[k] by {
            let expected = month_before(year as int, month as int, 7 - k);
            assert((months@[k].year as int, months@[k].month as int) == expected);
        }
        assert(months@ =~= recent(year as int, month as int));
    }
    trend_over_months(records, &months)
}

/// The trend as of the day `today`: that of the month in which the day
/// lies. `None` where the calendar cannot name the day or one of the
/// months.
pub open spec fn trend_on(records: Seq<(Seq<char>, u64)>, today: i32) -> Option<
    (Seq<Seq<char>>, Seq<u64>),
> {
    match civil_date(today) {
        Some((year, month, _)) => if year > i32::MIN && 1 <= month <= 12 {
            trend_over(records, recent(year as int, month as int))
        } else {
            None
        },
        None => None,
    }
}

/// The one-rep-max trend of `records` as of the day number `today`.
pub fn get_1_rep_maxes_on(today: i32, records: &Vec<WeightRecord>) -> (trend: Option<OneRepMaxes>)
    ensures
        is_trend(trend, trend_on(record_models(records@), today)),
        trend is Some ==> is_rising(trend->0, 8),
{
    match civil_from_days(today) {
        Some((year, month, _)) => {
            if year > i32::MIN {
                one_rep_max_trend(year, month, records)
            } else {
                None
            }
        },
        None => None,
    }
}

/// The one-rep-max trend of `records` as of today in the local time
/// zone: for each of the eight most recent months the heaviest weight
/// recorded in it or before it in that window.
pub fn get_1_rep_maxes(records: &Vec<WeightRecord>) -> (trend: Option<OneRepMaxes>)
    ensures
        exists|today: i32| is_trend(trend, trend_on(record_models(records@), today)),
        trend is Some ==> is_rising(trend->0, 8),
{
    let today = today_local();
    let trend = get_1_rep_maxes_on(today, records);
    proof {
        assert(is_trend(trend, trend_on(record_models(records@), today)));
    }
    trend
}

} // verus!
