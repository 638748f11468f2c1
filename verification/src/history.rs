//! The history: a user's workouts with their date, duration, sets and
//! total volume.

use vstd::prelude::*;
use vstd::string::*;
use crate::calendar::{
    day_label_layout, format_instant, formatted_instant, parse_instant, parsed_instant,
    timestamp_layout,
};
use crate::database_handler::{HistoryData, HistoryExercise, HistorySet};
use crate::text::{
    chars_before, chars_of, decimal, decimal_string, digit_char, digit_for,
    lemma_not_after_then_before, lemma_text_lt_asymmetric, lemma_text_lt_transitive,
    push_decimal, text_lt,
};
use crate::wt_types::WorkoutSet;

verus! {

/// Why a stored timestamp could not be read.
#[derive(Clone, Copy, Debug, PartialEq, Eq, Structural)]
pub enum TimestampError {
    /// The text is not a date and time in the layout of the store.
    Malformed,
}

/// Reads a stored timestamp, `YYYY-MM-DD HH:MM:SS`, as an instant in
/// UTC.
pub fn parse_as_date_time_utc(datetime_str: &str) -> (r: Result<i64, TimestampError>)
    ensures
        match r {
            Ok(instant) => parsed_instant(datetime_str@, timestamp_layout()) == Some(instant),
            Err(_) => parsed_instant(datetime_str@, timestamp_layout()) is None,
        },
{
    match parse_instant(datetime_str, "%Y-%m-%d %H:%M:%S") {
        Ok(instant) => Ok(instant),
        Err(_) => Err(TimestampError::Malformed),
    }
}

/// A span of `seconds` written as hours and minutes: the hours, `h`, the
/// minutes, `m`. The hours are the whole hours of the span, with its sign;
/// the minutes are what is left of the whole minutes, without sign.
pub open spec fn duration_text(seconds: int) -> Seq<char> {
    let size = if seconds < 0 {
        -seconds
    } else {
        seconds
    };
    let hours = (size / 3600) as nat;
    let minutes = ((size / 60) % 60) as nat;
    let sign = if seconds < 0 && hours > 0 {
        seq!['-']
    } else {
        Seq::<char>::empty()
    };
    sign + decimal(hours) + "h"@ + decimal(minutes) + "m"@
}

/// Writes the span from `start` to `end`, both in seconds.
pub fn span_text(start: i64, end: i64) -> (text: String)
    ensures
        text@ == duration_text(end - start),
{
    let size: u64 = if end >= start {
        (end as i128 - start as i128) as u64
    } else {
        (start as i128 - end as i128) as u64
    };
    let hours: u64 = size / 3600;
    let minutes: u64 = (size / 60) % 60;
    let mut text = String::new();
    if end < start && hours > 0 {
        text.append("-");
    }
    proof {
        reveal_strlit("-");
        assert(text@ =~= if end - start < 0 && hours > 0 {
            seq!['-']
        } else {
            Seq::<char>::empty()
        });
    }
    push_decimal(&mut text, hours);
    text.append("h");
    push_decimal(&mut text, minutes);
    text.append("m");
    text
}

/// Why the history could not be built.
#[derive(Clone, Copy, Debug, PartialEq, Eq, Structural)]
pub enum HistoryError {
    /// A workout's start time is not in the layout of the store.
    BadStartTime,
    /// A workout's end time is not in the layout of the store.
    BadEndTime,
    /// A workout began at an instant that the calendar cannot name.
    OutOfRange,
}

/// Writes the span between two stored timestamps.
pub fn compute_duration(start_time: &str, end_time: &str) -> (r: Result<String, HistoryError>)
    ensures
        match r {
            Ok(text) => {
                &&& parsed_instant(start_time@, timestamp_layout()) is Some
                &&& parsed_instant(end_time@, timestamp_layout()) is Some
                &&& text@ == duration_text(
                    parsed_instant(end_time@, timestamp_layout())->0 - parsed_instant(
                        start_time@,
                        timestamp_layout(),
                    )->0,
                )
            },
            Err(e) => e == duration_error(start_time@, end_time@),
        },
        r is Err <==> parsed_instant(start_time@, timestamp_layout()) is None || parsed_instant(
            end_time@,
            timestamp_layout(),
        ) is None,
{
    let start = match parse_as_date_time_utc(start_time) {
        Ok(instant) => instant,
        Err(_) => {
            return Err(HistoryError::BadStartTime);
        },
    };
    let end = match parse_as_date_time_utc(end_time) {
        Ok(instant) => instant,
        Err(_) => {
            return Err(HistoryError::BadEndTime);
        },
    };
    Ok(span_text(start, end))
}

/// The error that the two timestamps of a workout give: that of the
/// start time where it is malformed, else that of the end time.
pub open spec fn duration_error(start_time: Seq<char>, end_time: Seq<char>) -> HistoryError {
    if parsed_instant(start_time, timestamp_layout()) is None {
        HistoryError::BadStartTime
    } else {
        HistoryError::BadEndTime
    }
}

/// The digits behind the decimal point of a weight with `grams` grams
/// over its whole kilograms, without trailing zeros.
pub open spec fn gram_digits(grams: nat) -> Seq<char> {
    if grams % 100 == 0 {
        seq![digit_char(grams / 100)]
    } else if grams % 10 == 0 {
        seq![digit_char(grams / 100), digit_char((grams / 10) % 10)]
    } else {
        seq![digit_char(grams / 100), digit_char((grams / 10) % 10), digit_char(grams % 10)]
    }
}

/// A weight of `grams` grams written in kilograms: the whole kilograms,
/// and behind a decimal point the rest, where there is one.
pub open spec fn weight_text(grams: nat) -> Seq<char> {
    if grams % 1000 == 0 {
        decimal(grams / 1000)
    } else {
        decimal(grams / 1000) + seq!['.'] + gram_digits(grams % 1000)
    }
}

/// Appends to `out` the weight of `grams` grams, written in kilograms.
pub fn push_weight(out: &mut String, grams: u64)
    ensures
        final(out)@ == old(out)@ + weight_text(grams as nat),
{
    let rest: u64 = grams % 1000;
    push_decimal(out, grams / 1000);
    if rest != 0 {
        out.push('.');
        out.push(digit_for(rest / 100));
        if rest % 100 != 0 {
            out.push(digit_for((rest / 10) % 10));
            if rest % 10 != 0 {
                out.push(digit_for(rest % 10));
            }
        }
        proof {
            assert(out@ =~= old(out)@ + weight_text(grams as nat));
        }
    }
}

/// The weight of `grams` grams, written in kilograms.
pub fn format_weight(grams: u64) -> (text: String)
    ensures
        text@ == weight_text(grams as nat),
{
    let mut text = String::new();
    push_weight(&mut text, grams);
    proof {
        assert(Seq::<char>::empty() + weight_text(grams as nat) =~= weight_text(grams as nat));
    }
    text
}

/// The volume of one set in whole kilograms: weight times repetitions,
/// with what is less than a kilogram dropped.
pub open spec fn set_volume(set: WorkoutSet) -> nat {
    ((set.weight * set.reps) / 1000) as nat
}

/// The volume of `sets`: the sum of the volumes of its sets.
pub open spec fn sets_volume(sets: Seq<WorkoutSet>) -> nat
    decreases sets.len(),
{
    if sets.len() == 0 {
        0
    } else {
        sets_volume(sets.drop_last()) + set_volume(sets.last())
    }
}

/// The volume of a set of whole kilograms is its kilograms times its
/// repetitions: nothing is dropped.
pub proof fn lemma_whole_kilograms_lose_nothing(set: WorkoutSet)
    requires
        set.weight % 1000 == 0,
    ensures
        set_volume(set) == (set.weight / 1000) * set.reps,
{
    let kilograms = set.weight as int / 1000;
    let reps = set.reps as int;
    assert(set.weight == 1000 * kilograms);
    assert((1000 * kilograms) * reps == 1000 * (kilograms * reps)) by (nonlinear_arith);
    assert((1000 * (kilograms * reps)) / 1000 == kilograms * reps);
}

/// A volume as the history reports it: itself, or the largest `u64` when
/// it does not fit.
pub open spec fn reported_volume(volume: nat) -> u64 {
    if volume > u64::MAX {
        u64::MAX
    } else {
        volume as u64
    }
}

/// Adds the volume of `sets` to `total`, stopping at the largest `u64`.
fn add_sets_volume(total: u64, sets: &Vec<WorkoutSet>) -> (sum: u64)
    ensures
        sum == reported_volume(total as nat + sets_volume(sets@)),
{
    let mut sum: u64 = total;
    let mut i: usize = 0;
    while i < sets.len()
        invariant
            i <= sets@.len(),
            sum == reported_volume(total as nat + sets_volume(sets@.take(i as int))),
        decreases sets@.len() - i,
    {
        let set = sets[i];
        proof {
            assert(sets@.take(i + 1).drop_last() =~= sets@.take(i as int));
            assert(sets@.take(i + 1).last() == set);
        }
        assert(set.weight * set.reps <= 0xffff_ffff_ffff_ffff * 0xffff_ffff) by (nonlinear_arith)
            requires
                0 <= set.weight <= 0xffff_ffff_ffff_ffff,
                0 <= set.reps <= 0xffff_ffff,
        ;
        let product: u128 = set.weight as u128 * set.reps as u128;
        let whole: u128 = product / 1000;
        let step: u64 = if whole > u64::MAX as u128 {
            u64::MAX
        } else {
            whole as u64
        };
        sum = sum.saturating_add(step);
        i += 1;
    }
    proof {
        assert(sets@.take(sets@.len() as int) =~= sets@);
    }
    sum
}

/// The sets of one exercise of a stored workout, by ascending set
/// number, with the exercise's name.
#[derive(Debug)]
pub struct ExerciseSets {
    pub name: String,
    pub sets: Vec<WorkoutSet>,
}

/// A stored workout with its exercises, in the order performed.
#[derive(Debug)]
pub struct WorkoutRecord {
    pub start_time: String,
    pub end_time: String,
    pub prs: u32,
    pub exercises: Vec<ExerciseSets>,
}

/// What an `ExerciseSets` holds.
pub struct ExerciseSetsModel {
    pub name: Seq<char>,
    pub sets: Seq<WorkoutSet>,
}

/// What a `WorkoutRecord` holds.
pub struct WorkoutRecordModel {
    pub start_time: Seq<char>,
    pub end_time: Seq<char>,
    pub prs: u32,
    pub exercises: Seq<ExerciseSetsModel>,
}

/// What a `HistorySet` holds.
pub struct HistorySetModel {
    pub reps: Seq<char>,
    pub weight: Seq<char>,
}

/// What a `HistoryExercise` holds.
pub struct HistoryExerciseModel {
    pub name: Seq<char>,
    pub sets: Seq<HistorySetModel>,
}

/// What a `HistoryData` holds.
pub struct HistoryDataModel {
    pub date: Seq<char>,
    pub date_epoch: u64,
    pub duration: Seq<char>,
    pub prs: u32,
    pub total_volume: u64,
    pub exercises: Seq<HistoryExerciseModel>,
}

impl View for ExerciseSets {
    type V = ExerciseSetsModel;

    open spec fn view(&self) -> ExerciseSetsModel {
        ExerciseSetsModel { name: self.name@, sets: self.sets@ }
    }
}

/// The views of a sequence of stored exercises.
pub open spec fn exercise_sets_models(exercises: Seq<ExerciseSets>) -> Seq<ExerciseSetsModel> {
    Seq::new(exercises.len(), |i: int| exercises[i]@)
}

impl View for WorkoutRecord {
    type V = WorkoutRecordModel;

    open spec fn view(&self) -> WorkoutRecordModel {
        WorkoutRecordModel {
            start_time: self.start_time@,
            end_time: self.end_time@,
            prs: self.prs,
            exercises: exercise_sets_models(self.exercises@),
        }
    }
}

/// The views of a sequence of stored workouts.
pub open spec fn workout_models(workouts: Seq<WorkoutRecord>) -> Seq<WorkoutRecordModel> {
    Seq::new(workouts.len(), |i: int| workouts[i]@)
}

impl View for HistorySet {
    type V = HistorySetModel;

    open spec fn view(&self) -> HistorySetModel {
        HistorySetModel { reps: self.reps@, weight: self.weight@ }
    }
}

/// The views of a sequence of history sets.
pub open spec fn history_set_models(sets: Seq<HistorySet>) -> Seq<HistorySetModel> {
    Seq::new(sets.len(), |i: int| sets[i]@)
}

impl View for HistoryExercise {
    type V = HistoryExerciseModel;

    open spec fn view(&self) -> HistoryExerciseModel {
        HistoryExerciseModel { name: self.name@, sets: history_set_models(self.sets@) }
    }
}

/// The views of a sequence of history exercises.
pub open spec fn history_exercise_models(exercises: Seq<HistoryExercise>) -> Seq<
    HistoryExerciseModel,
> {
    Seq::new(exercises.len(), |i: int| exercises[i]@)
}

impl View for HistoryData {
    type V = HistoryDataModel;

    open spec fn view(&self) -> HistoryDataModel {
        HistoryDataModel {
            date: self.date@,
            date_epoch: self.date_epoch,
            duration: self.duration@,
            prs: self.prs,
            total_volume: self.total_volume,
            exercises: history_exercise_models(self.exercises@),
        }
    }
}

/// The views of a sequence of history entries.
pub open spec fn history_models(entries: Seq<HistoryData>) -> Seq<HistoryDataModel> {
    Seq::new(entries.len(), |i: int| entries[i]@)
}

/// How the history shows a set: repetitions as a numeral, the weight in
/// kilograms.
pub open spec fn shown_set(set: WorkoutSet) -> HistorySetModel {
    HistorySetModel { reps: decimal(set.reps as nat), weight: weight_text(set.weight as nat) }
}

/// How the history shows an exercise: its name and its sets, in order.
pub open spec fn shown_exercise(exercise: ExerciseSetsModel) -> HistoryExerciseModel {
    HistoryExerciseModel {
        name: exercise.name,
        sets: Seq::new(exercise.sets.len(), |i: int| shown_set(exercise.sets[i])),
    }
}

/// The volume of a workout: the sum of the volumes of all sets of all its
/// exercises.
pub open spec fn workout_volume(exercises: Seq<ExerciseSetsModel>) -> nat
    decreases exercises.len(),
{
    if exercises.len() == 0 {
        0
    } else {
        workout_volume(exercises.drop_last()) + sets_volume(exercises.last().sets)
    }
}

/// The seconds since 1970 as the history reports them: the instant
/// itself, or for an instant before 1970 its two's complement.
pub open spec fn reported_epoch(instant: i64) -> u64 {
    if instant >= 0 {
        instant as u64
    } else {
        (instant + 0x1_0000_0000_0000_0000) as u64
    }
}

/// The history entry of a workout that began at the instant `start`,
/// ended at `end` and is dated `date`.
pub open spec fn entry_of(workout: WorkoutRecordModel, start: i64, end: i64, date: Seq<char>)
    -> HistoryDataModel {
    HistoryDataModel {
        date,
        date_epoch: reported_epoch(start),
        duration: duration_text(end - start),
        prs: workout.prs,
        total_volume: reported_volume(workout_volume(workout.exercises)),
        exercises: Seq::new(workout.exercises.len(), |i: int| shown_exercise(workout.exercises[i])),
    }
}

/// The history entry of a stored workout, or the reason why it has none.
/// Both timestamps must be in the layout of the store, the start time
/// being looked at first.
pub open spec fn history_entry_of(workout: WorkoutRecordModel) -> Result<
    HistoryDataModel,
    HistoryError,
> {
    match (
        parsed_instant(workout.start_time, timestamp_layout()),
        parsed_instant(workout.end_time, timestamp_layout()),
    ) {
        (None, _) => Err(HistoryError::BadStartTime),
        (Some(_), None) => Err(HistoryError::BadEndTime),
        (Some(start), Some(end)) => match formatted_instant(start, day_label_layout()) {
            None => Err(HistoryError::OutOfRange),
            Some(date) => Ok(entry_of(workout, start, end, date)),
        },
    }
}

/// Shows the sets of an exercise.
fn show_sets(sets: &Vec<WorkoutSet>) -> (shown: Vec<HistorySet>)
    ensures
        history_set_models(shown@) == Seq::new(sets@.len(), |i: int| shown_set(sets@[i])),
{
    let mut shown: Vec<HistorySet> = Vec::new();
    let mut i: usize = 0;
    while i < sets.len()
        invariant
            i <= sets@.len(),
            shown@.len() == i,
            forall|j: int| 0 <= j < i ==> (#[trigger] shown@[j])@ == shown_set(sets@[j]),
        decreases sets@.len() - i,
    {
        let set = sets[i];
        shown.push(
            HistorySet { reps: decimal_string(set.reps as u64), weight: format_weight(set.weight) },
        );
        i += 1;
    }
    proof {
        assert(history_set_models(shown@) =~= Seq::new(
            sets@.len(),
            |i: int| shown_set(sets@[i]),
        ));
    }
    shown
}

/// Shows the exercises of a workout and sums their volume.
fn show_exercises(exercises: &Vec<ExerciseSets>) -> (out: (Vec<HistoryExercise>, u64))
    ensures
        history_exercise_models(out.0@) == Seq::new(
            exercises@.len(),
            |i: int| shown_exercise(exercises@[i]@),
        ),
        out.1 == reported_volume(workout_volume(exercise_sets_models(exercises@))),
{
    let mut shown: Vec<HistoryExercise> = Vec::new();
    let mut volume: u64 = 0;
    let mut i: usize = 0;
    let ghost all = exercise_sets_models(exercises@);
    while i < exercises.len()
        invariant
            i <= exercises@.len(),
            all == exercise_sets_models(exercises@),
            shown@.len() == i,
            forall|j: int| 0 <= j < i ==> (#[trigger] shown@[j])@ == shown_exercise(exercises@[j]@),
            volume == reported_volume(workout_volume(all.take(i as int))),
        decreases exercises@.len() - i,
    {
        let exercise = &exercises[i];
        proof {
            assert(all.take(i + 1).drop_last() =~= all.take(i as int));
            assert(all.take(i + 1).last() == exercise@);
        }
        volume = add_sets_volume(volume, &exercise.sets);
        shown.push(
            HistoryExercise { name: exercise.name.clone(), sets: show_sets(&exercise.sets) },
        );
        i += 1;
    }
    proof {
        assert(all.take(exercises@.len() as int) =~= all);
        assert(history_exercise_models(shown@) =~= Seq::new(
            exercises@.len(),
            |i: int| shown_exercise(exercises@[i]@),
        ));
    }
    (shown, volume)
}

/// Builds the history entry of a workout that began at the instant
/// `start`, ended at `end` and is dated `date`.
pub fn build_history_entry(workout: &WorkoutRecord, start: i64, end: i64, date: String) -> (entry:
    HistoryData)
    ensures
        entry@ == entry_of(workout@, start, end, date@),
{
    let duration = span_text(start, end);
    let shown = show_exercises(&workout.exercises);
    let entry = HistoryData {
        date,
        date_epoch: epoch_of(start),
        duration,
        prs: workout.prs,
        total_volume: shown.1,
        exercises: shown.0,
    };
    proof {
        let expected = entry_of(workout@, start, end, date@);
        assert(expected.exercises =~= entry@.exercises) by {
            assert forall|i: int| 0 <= i < workout.exercises@.len() implies shown_exercise(
                workout@.exercises[i],
            ) == shown_exercise(workout.exercises@[i]@) by {}
        }
    }
    entry
}

/// Builds the history entry of one stored workout.
pub fn history_entry(workout: &WorkoutRecord) -> (r: Result<HistoryData, HistoryError>)
    ensures
        match r {
            Ok(entry) => history_entry_of(workout@) == Ok::<HistoryDataModel, HistoryError>(
                entry@,
            ),
            Err(e) => history_entry_of(workout@) == Err::<HistoryDataModel, HistoryError>(e),
        },
{
    let start = match parse_as_date_time_utc(workout.start_time.as_str()) {
        Ok(instant) => instant,
        Err(_) => {
            return Err(HistoryError::BadStartTime);
        },
    };
    let end = match parse_as_date_time_utc(workout.end_time.as_str()) {
        Ok(instant) => instant,
        Err(_) => {
            return Err(HistoryError::BadEndTime);
        },
    };
    match format_instant(start, "%A, %d %b") {
        Some(date) => Ok(build_history_entry(workout, start, end, date)),
        None => Err(HistoryError::OutOfRange),
    }
}

/// The seconds since 1970 as the history reports them.
fn epoch_of(instant: i64) -> (r: u64)
    ensures
        r == reported_epoch(instant),
{
    if instant >= 0 {
        instant as u64
    } else {
        (instant as i128 + 0x1_0000_0000_0000_0000i128) as u64
    }
}

/// The history of `workouts`, entry by entry and in their order, or the
/// error of the first workout that has no entry.
pub open spec fn history_of(workouts: Seq<WorkoutRecordModel>) -> Result<
    Seq<HistoryDataModel>,
    HistoryError,
>
    decreases workouts.len(),
{
    if workouts.len() == 0 {
        Ok(Seq::empty())
    } else {
        match history_of(workouts.drop_last()) {
            Err(e) => Err(e),
            Ok(before) => match history_entry_of(workouts.last()) {
                Ok(entry) => Ok(before.push(entry)),
                Err(e) => Err(e),
            },
        }
    }
}

/// An error among the first `n` workouts is the error of them all.
proof fn lemma_history_fails_from(workouts: Seq<WorkoutRecordModel>, n: int)
    requires
        0 <= n <= workouts.len(),
        history_of(workouts.take(n)) is Err,
    ensures
        history_of(workouts) == history_of(workouts.take(n)),
    decreases workouts.len() - n,
{
    if n == workouts.len() {
        assert(workouts.take(n) =~= workouts);
    } else {
        assert(workouts.take(n + 1).drop_last() =~= workouts.take(n));
        lemma_history_fails_from(workouts, n + 1);
    }
}

/// `sorted` with `workout` put in behind the last workout that did not
/// start before it.
pub open spec fn placed(sorted: Seq<WorkoutRecordModel>, workout: WorkoutRecordModel) -> Seq<
    WorkoutRecordModel,
>
    decreases sorted.len(),
{
    if sorted.len() > 0 && text_lt(sorted.last().start_time, workout.start_time) {
        placed(sorted.drop_last(), workout).push(sorted.last())
    } else {
        sorted.push(workout)
    }
}

/// `workouts` by start time, newest first. Start times are ordered as
/// texts, and workouts of one start time keep their order.
pub open spec fn newest_first(workouts: Seq<WorkoutRecordModel>) -> Seq<WorkoutRecordModel>
    decreases workouts.len(),
{
    if workouts.len() == 0 {
        Seq::empty()
    } else {
        placed(newest_first(workouts.drop_last()), workouts.last())
    }
}

/// Whether no workout of `workouts` starts before one that follows it.
pub open spec fn is_newest_first(workouts: Seq<WorkoutRecordModel>) -> bool {
    forall|i: int, j: int|
        0 <= i < j < workouts.len() ==> !text_lt(
            #[trigger] workouts[i].start_time,
            #[trigger] workouts[j].start_time,
        )
}

/// Putting a workout in where every later one started before it and the
/// one before did not is putting it in its place.
proof fn lemma_placed_at(sorted: Seq<WorkoutRecordModel>, workout: WorkoutRecordModel, at: int)
    requires
        0 <= at <= sorted.len(),
        forall|k: int|
            at <= k < sorted.len() ==> text_lt(#[trigger] sorted[k].start_time, workout.start_time),
        at > 0 ==> !text_lt(sorted[at - 1].start_time, workout.start_time),
    ensures
        placed(sorted, workout) == sorted.insert(at, workout),
    decreases sorted.len(),
{
    if at == sorted.len() {
        assert(sorted.push(workout) =~= sorted.insert(at, workout));
    } else {
        let shorter = sorted.drop_last();
        assert(text_lt(sorted[sorted.len() - 1].start_time, workout.start_time));
        assert forall|k: int| at <= k < shorter.len() implies text_lt(
            #[trigger] shorter[k].start_time,
            workout.start_time,
        ) by {
            assert(shorter[k] == sorted[k]);
        }
        if at > 0 {
            assert(shorter[at - 1] == sorted[at - 1]);
        }
        lemma_placed_at(shorter, workout, at);
        assert(shorter.insert(at, workout).push(sorted.last()) =~= sorted.insert(at, workout));
    }
}

/// A workout that is put in its place leaves the order intact, and adds
/// itself and nothing else.
pub proof fn lemma_placed_keeps_order(sorted: Seq<WorkoutRecordModel>, workout: WorkoutRecordModel)
    requires
        is_newest_first(sorted),
    ensures
        is_newest_first(placed(sorted, workout)),
        placed(sorted, workout).to_multiset() =~= sorted.to_multiset().insert(workout),
        placed(sorted, workout).len() == sorted.len() + 1,
    decreases sorted.len(),
{
    broadcast use vstd::seq_lib::to_multiset_build;

    if sorted.len() > 0 && text_lt(sorted.last().start_time, workout.start_time) {
        let shorter = sorted.drop_last();
        let last = sorted.last();
        assert(is_newest_first(shorter)) by {
            assert forall|i: int, j: int| 0 <= i < j < shorter.len() implies !text_lt(
                #[trigger] shorter[i].start_time,
                #[trigger] shorter[j].start_time,
            ) by {
                assert(shorter[i] == sorted[i] && shorter[j] == sorted[j]);
            }
        }
        lemma_placed_keeps_order(shorter, workout);
        let inner = placed(shorter, workout);
        let out = inner.push(last);
        assert(sorted =~= shorter.push(last));
        assert(out.to_multiset() =~= sorted.to_multiset().insert(workout));
        assert forall|i: int, j: int| 0 <= i < j < out.len() implies !text_lt(
            #[trigger] out[i].start_time,
            #[trigger] out[j].start_time,
        ) by {
            if j < inner.len() {
                assert(out[i] == inner[i] && out[j] == inner[j]);
            } else {
                // Every workout of `inner` is `workout` or one of `shorter`.
                assert(out[i] == inner[i]);
                assert(inner.to_multiset().count(inner[i]) > 0) by {
                    inner.to_multiset_ensures();
                    assert(inner.contains(inner[i]));
                }
                if inner[i] == workout {
                    lemma_text_lt_asymmetric(last.start_time, workout.start_time);
                } else {
                    assert(shorter.to_multiset().count(inner[i]) > 0);
                    shorter.to_multiset_ensures();
                    assert(shorter.contains(inner[i]));
                    let k = choose|k: int| 0 <= k < shorter.len() && shorter[k] == inner[i];
                    assert(sorted[k] == inner[i]);
                    assert(sorted[sorted.len() - 1] == last);
                }
            }
        }
    } else {
        let out = sorted.push(workout);
        assert forall|i: int, j: int| 0 <= i < j < out.len() implies !text_lt(
            #[trigger] out[i].start_time,
            #[trigger] out[j].start_time,
        ) by {
            if j < sorted.len() {
                assert(out[i] == sorted[i] && out[j] == sorted[j]);
            } else {
                assert(out[i] == sorted[i]);
                let last = sorted.last();
                assert(sorted[sorted.len() - 1] == last);
                if i < sorted.len() - 1 {
                    if text_lt(sorted[i].start_time, workout.start_time) {
                        // Then the last one, which does not start after
                        // `sorted[i]`, would start before `workout` too.
                        if text_lt(last.start_time, sorted[i].start_time) {
                            lemma_text_lt_transitive(
                                last.start_time,
                                sorted[i].start_time,
                                workout.start_time,
                            );
                        } else {
                            lemma_not_after_then_before(
                                last.start_time,
                                sorted[i].start_time,
                                workout.start_time,
                            );
                        }
                    }
                }
            }
        }
    }
}

/// The history is ordered newest first, and shows every workout once.
pub proof fn lemma_newest_first_is_sorted(workouts: Seq<WorkoutRecordModel>)
    ensures
        is_newest_first(newest_first(workouts)),
        newest_first(workouts).to_multiset() =~= workouts.to_multiset(),
        newest_first(workouts).len() == workouts.len(),
    decreases workouts.len(),
{
    broadcast use vstd::seq_lib::to_multiset_build;

    if workouts.len() == 0 {
        assert(workouts =~= Seq::<WorkoutRecordModel>::empty());
    } else {
        lemma_newest_first_is_sorted(workouts.drop_last());
        lemma_placed_keeps_order(newest_first(workouts.drop_last()), workouts.last());
        assert(workouts =~= workouts.drop_last().push(workouts.last()));
    }
}

/// The workouts that the indices `order` pick from `workouts`.
pub open spec fn picked(workouts: Seq<WorkoutRecordModel>, order: Seq<usize>) -> Seq<
    WorkoutRecordModel,
> {
    Seq::new(order.len(), |k: int| workouts[order[k] as int])
}

/// The indices of `workouts` in the order of their start times, newest
/// first.
fn order_newest_first(workouts: &Vec<WorkoutRecord>) -> (order: Vec<usize>)
    ensures
        order@.len() == workouts@.len(),
        forall|k: int| 0 <= k < order@.len() ==> #[trigger] order@[k] < workouts@.len(),
        picked(workout_models(workouts@), order@) == newest_first(workout_models(workouts@)),
{
    let mut order: Vec<usize> = Vec::new();
    let mut i: usize = 0;
    let ghost all = workout_models(workouts@);
    proof {
        assert(picked(all, order@) =~= newest_first(all.take(0)));
    }
    while i < workouts.len()
        invariant
            i <= workouts@.len(),
            all == workout_models(workouts@),
            order@.len() == i,
            forall|k: int| 0 <= k < order@.len() ==> #[trigger] order@[k] < i,
            picked(all, order@) == newest_first(all.take(i as int)),
        decreases workouts@.len() - i,
    {
        let start = chars_of(workouts[i].start_time.as_str());
        let ghost sorted = picked(all, order@);
        let mut at: usize = order.len();
        while at > 0 && starts_before(workouts, order[at - 1], start.as_slice())
            invariant
                at <= order@.len() == i < workouts@.len(),
                all == workout_models(workouts@),
                sorted == picked(all, order@),
                start@ == workouts@[i as int].start_time@,
                forall|k: int| 0 <= k < order@.len() ==> #[trigger] order@[k] < i,
                forall|k: int|
                    at <= k < sorted.len() ==> text_lt(#[trigger] sorted[k].start_time, start@),
            decreases at,
        {
            at -= 1;
        }
        proof {
            assert(all.take(i + 1).drop_last() =~= all.take(i as int));
            assert(all.take(i + 1).last() == all[i as int]);
            if at > 0 {
                assert(sorted[at - 1] == all[order@[at - 1] as int]);
            }
            lemma_placed_at(sorted, all[i as int], at as int);
        }
        order.insert(at, i);
        proof {
            assert(picked(all, order@) =~= sorted.insert(at as int, all[i as int]));
        }
        i += 1;
    }
    proof {
        assert(all.take(workouts@.len() as int) =~= all);
    }
    order
}

/// Whether the workout at index `k` starts before the time `start`.
fn starts_before(workouts: &Vec<WorkoutRecord>, k: usize, start: &[char]) -> (before: bool)
    requires
        k < workouts@.len(),
    ensures
        before == text_lt(workout_models(workouts@)[k as int].start_time, start@),
{
    let other = chars_of(workouts[k].start_time.as_str());
    chars_before(other.as_slice(), start)
}

/// Builds the history view of a user's workouts: one entry for each,
/// newest first. A workout whose timestamps cannot be read stops the whole
/// view.
pub fn get_history_data(workouts: &Vec<WorkoutRecord>) -> (r: Result<
    Vec<HistoryData>,
    HistoryError,
>)
    ensures
        match r {
            Ok(entries) => history_of(newest_first(workout_models(workouts@))) == Ok::<
                Seq<HistoryDataModel>,
                HistoryError,
            >(history_models(entries@)),
            Err(e) => history_of(newest_first(workout_models(workouts@))) == Err::<
                Seq<HistoryDataModel>,
                HistoryError,
            >(e),
        },
{
    let order = order_newest_first(workouts);
    let mut entries: Vec<HistoryData> = Vec::new();
    let mut i: usize = 0;
    let ghost all = newest_first(workout_models(workouts@));
    proof {
        assert(history_models(entries@) =~= Seq::<HistoryDataModel>::empty());
    }
    while i < order.len()
        invariant
            i <= order@.len(),
            forall|k: int| 0 <= k < order@.len() ==> #[trigger] order@[k] < workouts@.len(),
            all == picked(workout_models(workouts@), order@),
            all == newest_first(workout_models(workouts@)),
            history_of(all.take(i as int)) == Ok::<Seq<HistoryDataModel>, HistoryError>(
                history_models(entries@),
            ),
        decreases order@.len() - i,
    {
        proof {
            assert(all.take(i + 1).drop_last() =~= all.take(i as int));
            assert(all.take(i + 1).last() == workouts@[order@[i as int] as int]@);
        }
        let ghost before = history_models(entries@);
        match history_entry(&workouts[order[i]]) {
            Ok(entry) => {
                entries.push(entry);
                proof {
                    assert(history_models(entries@) =~= before.push(entry@));
                }
            },
            Err(e) => {
                proof {
                    lemma_history_fails_from(all, i + 1);
                }
                return Err(e);
            },
        }
        i += 1;
    }
    proof {
        assert(all.take(order@.len() as int) =~= all);
    }
    Ok(entries)
}

} // verus!
