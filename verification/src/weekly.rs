//! The weekly workout count: how many workouts started in each of the
//! eight most recent weeks, Monday to Sunday.

use vstd::prelude::*;
use crate::calendar::{
    civil_date, civil_from_days, date_layout, days_from_monday, format_date, formatted_date,
    monday_on_or_before, today_local, weekday_from_monday,
};
use crate::database_handler::WorkoutsPerWeek;
use crate::text::{decimal, in_range, push_decimal, text_in_range, texts};

verus! {

/// The day number of the Monday that begins week `k` of the eight weeks
/// that end with the week of `today`. Week 7 is the week of `today`.
pub open spec fn week_start(today: int, k: int) -> int {
    monday_on_or_before(today) - 7 * (7 - k)
}

/// Every week of the window begins on a Monday, the weeks follow each
/// other without gap, and the last of them holds `today`.
pub proof fn lemma_weeks_are_monday_anchored(today: int, k: int)
    ensures
        weekday_from_monday(week_start(today, k)) == 0,
        week_start(today, k + 1) == week_start(today, k) + 7,
        week_start(today, 7) <= today < week_start(today, 7) + 7,
        week_start(today, k) == monday_on_or_before(today - 7 * (7 - k)),
{
}

/// The date of a day number as a query bound writes it.
pub open spec fn date_text(day_number: int) -> Option<Seq<char>> {
    if i32::MIN <= day_number <= i32::MAX {
        match civil_date(day_number as i32) {
            Some((year, month, day)) => formatted_date(year, month, day, date_layout()),
            None => None,
        }
    } else {
        None
    }
}

/// The label of a week that begins on the day `day` of the month
/// `month`: the day, a slash, and the month, both without leading zeros.
pub open spec fn day_and_month(day: u32, month: u32) -> Seq<char> {
    decimal(day as nat) + seq!['/'] + decimal(month as nat)
}

/// Writes the label of a week that begins on the day `day` of the month
/// `month`.
pub fn week_label_text(day: u32, month: u32) -> (label: String)
    ensures
        label@ == day_and_month(day, month),
{
    let mut label = String::new();
    push_decimal(&mut label, day as u64);
    label.push('/');
    push_decimal(&mut label, month as u64);
    proof {
        assert(label@ =~= day_and_month(day, month));
    }
    label
}

/// The label of the week that begins on `day_number`.
pub open spec fn week_label(day_number: int) -> Option<Seq<char>> {
    if i32::MIN <= day_number <= i32::MAX {
        match civil_date(day_number as i32) {
            Some((_, month, day)) => Some(day_and_month(day, month)),
            None => None,
        }
    } else {
        None
    }
}

/// How many of `starts` lie in the range from `from` up to, and not
/// including, `until`.
pub open spec fn count_in(starts: Seq<Seq<char>>, from: Seq<char>, until: Seq<char>) -> nat
    decreases starts.len(),
{
    if starts.len() == 0 {
        0
    } else {
        count_in(starts.drop_last(), from, until) + if in_range(starts.last(), from, until) {
            1nat
        } else {
            0nat
        }
    }
}

/// A count as the weekly view reports it: itself, or the largest `u32`
/// when it does not fit.
pub open spec fn reported(count: nat) -> u32 {
    if count > u32::MAX {
        u32::MAX
    } else {
        count as u32
    }
}

/// How many of `starts` lie in the given range, as reported.
pub fn count_starts(starts: &Vec<String>, from: &str, until: &str) -> (n: u32)
    ensures
        n == reported(count_in(texts(starts@), from@, until@)),
{
    let mut n: u32 = 0;
    let mut i: usize = 0;
    let ghost all = texts(starts@);
    while i < starts.len()
        invariant
            i <= starts@.len(),
            all == texts(starts@),
            n == reported(count_in(all.take(i as int), from@, until@)),
        decreases starts@.len() - i,
    {
        proof {
            assert(all.take(i + 1).drop_last() =~= all.take(i as int));
            assert(all.take(i + 1).last() == starts@[i as int]@);
        }
        if text_in_range(starts[i].as_str(), from, until) && n < u32::MAX {
            n += 1;
        }
        i += 1;
    }
    proof {
        assert(all.take(starts@.len() as int) =~= all);
    }
    n
}

/// The label of week `k` and the number of `starts` that fall into it,
/// where the calendar can name the week's first day and the day after its
/// last.
pub open spec fn week_point(starts: Seq<Seq<char>>, today: int, k: int) -> Option<
    (Seq<char>, u32),
> {
    let first = week_start(today, k);
    match (week_label(first), date_text(first), date_text(first + 7)) {
        (Some(label), Some(from), Some(until)) => Some(
            (label, reported(count_in(starts, from, until))),
        ),
        _ => None,
    }
}

/// The labels and counts of the first `n` weeks of the window, oldest
/// first. `None` where the calendar cannot name one of them.
pub open spec fn weekly(starts: Seq<Seq<char>>, today: int, n: int) -> Option<
    (Seq<Seq<char>>, Seq<u32>),
>
    decreases n,
{
    if n <= 0 {
        Some((Seq::empty(), Seq::empty()))
    } else {
        match (weekly(starts, today, n - 1), week_point(starts, today, n - 1)) {
            (Some(before), Some(point)) => Some((before.0.push(point.0), before.1.push(point.1))),
            _ => None,
        }
    }
}

/// The labels of a view, where there is one.
pub open spec fn labels_of(view: Option<(Seq<Seq<char>>, Seq<u32>)>) -> Seq<Seq<char>> {
    match view {
        Some(pair) => pair.0,
        None => Seq::empty(),
    }
}

/// The counts of a view, where there is one.
pub open spec fn counts_of(view: Option<(Seq<Seq<char>>, Seq<u32>)>) -> Seq<u32> {
    match view {
        Some(pair) => pair.1,
        None => Seq::empty(),
    }
}

/// The view has one label and one count for each week: those of the
/// week's own point.
pub proof fn lemma_weekly_is_week_by_week(starts: Seq<Seq<char>>, today: int, n: int)
    requires
        0 <= n,
        weekly(starts, today, n) is Some,
    ensures
        labels_of(weekly(starts, today, n)).len() == n,
        counts_of(weekly(starts, today, n)).len() == n,
        forall|k: int|
            0 <= k < n ==> (#[trigger] week_point(starts, today, k)) == Some(
                (labels_of(weekly(starts, today, n))[k], counts_of(weekly(starts, today, n))[k]),
            ),
    decreases n,
{
    if n > 0 {
        lemma_weekly_is_week_by_week(starts, today, n - 1);
    }
}

/// Once one of the first `n` weeks cannot be named, the view fails.
proof fn lemma_weekly_fails_from(starts: Seq<Seq<char>>, today: int, n: int, total: int)
    requires
        0 <= n <= total,
        weekly(starts, today, n) is None,
    ensures
        weekly(starts, today, total) is None,
    decreases total - n,
{
    if n < total {
        lemma_weekly_fails_from(starts, today, n + 1, total);
    }
}

/// Whether `view` is the value `expected`.
pub open spec fn is_weekly(
    view: Option<WorkoutsPerWeek>,
    expected: Option<(Seq<Seq<char>>, Seq<u32>)>,
) -> bool {
    match view {
        Some(v) => expected == Some((texts(v.labels@), v.data@)),
        None => expected is None,
    }
}

/// The date of `day_number` as a query bound writes it.
fn date_bound(day_number: i64) -> (text: Option<String>)
    ensures
        match text {
            Some(t) => date_text(day_number as int) == Some(t@),
            None => date_text(day_number as int) is None,
        },
{
    if day_number < i32::MIN as i64 || day_number > i32::MAX as i64 {
        return None;
    }
    match civil_from_days(day_number as i32) {
        Some((year, month, day)) => format_date(year, month, day, "%Y-%m-%d"),
        None => None,
    }
}

/// The label of the week that begins on `day_number`.
fn label_of_week(day_number: i64) -> (text: Option<String>)
    ensures
        match text {
            Some(t) => week_label(day_number as int) == Some(t@),
            None => week_label(day_number as int) is None,
        },
{
    if day_number < i32::MIN as i64 || day_number > i32::MAX as i64 {
        return None;
    }
    match civil_from_days(day_number as i32) {
        Some((_, month, day)) => Some(week_label_text(day, month)),
        None => None,
    }
}

/// The weekly view of `starts` as of the day number `today`: for each
/// of the eight most recent weeks, Monday to Sunday and the week of
/// `today` last, the label of its Monday and the number of workouts that
/// started in it.
pub fn get_workouts_per_week_on(today: i32, starts: &Vec<String>) -> (view: Option<
    WorkoutsPerWeek,
>)
    ensures
        is_weekly(view, weekly(texts(starts@), today as int, 8)),
        view is Some ==> view->0.labels@.len() == 8 && view->0.data@.len() == 8,
{
    let monday: i64 = today as i64 - days_from_monday(today) as i64;
    let mut labels: Vec<String> = Vec::new();
    let mut data: Vec<u32> = Vec::new();
    let mut k: i64 = 0;
    let ghost all = texts(starts@);
    proof {
        assert(texts(labels@) =~= Seq::<Seq<char>>::empty());
    }
    while k < 8
        invariant
            0 <= k <= 8,
            all == texts(starts@),
            monday == monday_on_or_before(today as int),
            weekly(all, today as int, k as int) == Some((texts(labels@), data@)),
            labels@.len() == k && data@.len() == k,
        decreases 8 - k,
    {
        let first: i64 = monday - 7 * (7 - k);
        let ghost old_labels = texts(labels@);
        let label = label_of_week(first);
        let from = date_bound(first);
        let until = date_bound(first + 7);
        match (label, from, until) {
            (Some(l), Some(f), Some(u)) => {
                let n = count_starts(starts, f.as_str(), u.as_str());
                labels.push(l);
                data.push(n);
                proof {
                    assert(texts(labels@) =~= old_labels.push(l@));
                }
            },
            _ => {
                proof {
                    assert(week_point(all, today as int, k as int) is None);
                    lemma_weekly_fails_from(all, today as int, k + 1, 8);
                }
                return None;
            },
        }
        k += 1;
    }
    Some(WorkoutsPerWeek { labels, data })
}

/// The weekly view of `starts` as of today in the local time zone.
pub fn get_workouts_per_week(starts: &Vec<String>) -> (view: Option<WorkoutsPerWeek>)
    ensures
        exists|today: i32| is_weekly(view, weekly(texts(starts@), today as int, 8)),
        view is Some ==> view->0.labels@.len() == 8 && view->0.data@.len() == 8,
{
    let today = today_local();
    let view = get_workouts_per_week_on(today, starts);
    proof {
        assert(is_weekly(view, weekly(texts(starts@), today as int, 8)));
    }
    view
}

} // verus!
