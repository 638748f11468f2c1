//! What is written to the store when a workout is saved.

use vstd::prelude::*;
use crate::wt_types::{ExerciseRecord, Workout, WorkoutSet};

verus! {

/// The row of a workout. A workout is stored without notes, and its
/// counter of personal records is zero.
#[derive(Debug)]
pub struct WorkoutInsert {
    pub user_id: u32,
    pub start_time: String,
    pub end_time: String,
    pub notes: String,
    pub prs: u32,
}

/// The row of a set. Within one exercise of a workout the sets are
/// numbered from 1 in the order performed.
#[derive(Clone, Copy, Debug, PartialEq, Eq, Structural)]
pub struct SetInsert {
    pub workout_exercise_id: u32,
    pub set_number: u64,
    pub weight: u64,
    pub reps: u32,
}

/// The row under which `workout` is stored for the user `user_id`.
pub fn workout_row(workout: &Workout, user_id: u32) -> (row: WorkoutInsert)
    ensures
        row.user_id == user_id,
        row.start_time@ == workout.start_time@,
        row.end_time@ == workout.end_time@,
        row.notes@.len() == 0,
        row.prs == 0,
{
    WorkoutInsert {
        user_id,
        start_time: workout.start_time.clone(),
        end_time: workout.end_time.clone(),
        notes: String::new(),
        prs: 0,
    }
}

/// The rows of the sets of one exercise, which is stored under
/// `workout_exercise_id`: row `j` holds set `j` under the number `j + 1`.
pub open spec fn rows_of_sets(sets: Seq<WorkoutSet>, workout_exercise_id: u32) -> Seq<SetInsert> {
    Seq::new(
        sets.len(),
        |j: int|
            SetInsert {
                workout_exercise_id,
                set_number: (j + 1) as u64,
                weight: sets[j].weight,
                reps: sets[j].reps,
            },
    )
}

/// The rows of the sets of the first `n` exercises, exercise `i` being
/// stored under `ids[i]`.
pub open spec fn rows_of_exercises(exercises: Seq<ExerciseRecord>, ids: Seq<u32>, n: int) -> Seq<
    SetInsert,
>
    decreases n,
{
    if n <= 0 {
        Seq::empty()
    } else {
        rows_of_exercises(exercises, ids, n - 1) + rows_of_sets(exercises[n - 1].sets@, ids[n - 1])
    }
}

/// The number of exercises that have an id: all of them, unless there are
/// fewer ids.
pub open spec fn paired(exercises: Seq<ExerciseRecord>, ids: Seq<u32>) -> int {
    if exercises.len() <= ids.len() {
        exercises.len() as int
    } else {
        ids.len() as int
    }
}

/// Appends the rows of the sets of one exercise.
fn push_set_rows(rows: &mut Vec<SetInsert>, sets: &Vec<WorkoutSet>, workout_exercise_id: u32)
    ensures
        final(rows)@ == old(rows)@ + rows_of_sets(sets@, workout_exercise_id),
{
    let mut j: usize = 0;
    let n: usize = sets.len();
    while j < n
        invariant
            j <= n == sets@.len(),
            rows@ =~= old(rows)@ + rows_of_sets(sets@, workout_exercise_id).take(j as int),
        decreases n - j,
    {
        rows.push(
            SetInsert {
                workout_exercise_id,
                set_number: (j + 1) as u64,
                weight: sets[j].weight,
                reps: sets[j].reps,
            },
        );
        j += 1;
    }
    proof {
        let all = rows_of_sets(sets@, workout_exercise_id);
        assert(all.take(n as int) =~= all);
    }
}

/// The rows of the sets of `workout`, whose exercises were stored, in
/// order, under `workout_exercise_ids`. The number of rows is the number
/// of sets saved.
pub fn save_workout(workout: &Workout, workout_exercise_ids: &Vec<u32>) -> (rows: Vec<SetInsert>)
    ensures
        rows@ == rows_of_exercises(
            workout.exercises@,
            workout_exercise_ids@,
            paired(workout.exercises@, workout_exercise_ids@),
        ),
{
    let mut rows: Vec<SetInsert> = Vec::new();
    let mut i: usize = 0;
    while i < workout.exercises.len() && i < workout_exercise_ids.len()
        invariant
            i <= workout.exercises@.len(),
            i <= workout_exercise_ids@.len(),
            rows@ == rows_of_exercises(workout.exercises@, workout_exercise_ids@, i as int),
        decreases workout.exercises@.len() - i,
    {
        push_set_rows(&mut rows, &workout.exercises[i].sets, workout_exercise_ids[i]);
        i += 1;
    }
    rows
}

/// Within each exercise the set numbers run from 1 without gap, in the
/// order of the sets.
pub proof fn lemma_set_numbers_are_contiguous(sets: Seq<WorkoutSet>, workout_exercise_id: u32)
    requires
        sets.len() <= u64::MAX,
    ensures
        rows_of_sets(sets, workout_exercise_id).len() == sets.len(),
        forall|j: int|
            0 <= j < sets.len() ==> (#[trigger] rows_of_sets(
                sets,
                workout_exercise_id,
            )[j]).set_number == j + 1,
        forall|j: int|
            0 <= j < sets.len() ==> (#[trigger] rows_of_sets(sets, workout_exercise_id)[j]).weight
                == sets[j].weight && rows_of_sets(sets, workout_exercise_id)[j].reps
                == sets[j].reps,
{
}

/// The number of rows that `n` exercises give is the number of their
/// sets.
pub open spec fn count_sets(exercises: Seq<ExerciseRecord>, n: int) -> int
    decreases n,
{
    if n <= 0 {
        0
    } else {
        count_sets(exercises, n - 1) + exercises[n - 1].sets@.len()
    }
}

/// One row is written for each set.
pub proof fn lemma_one_row_per_set(exercises: Seq<ExerciseRecord>, ids: Seq<u32>, n: int)
    ensures
        rows_of_exercises(exercises, ids, n).len() == count_sets(exercises, n),
    decreases n,
{
    if n > 0 {
        lemma_one_row_per_set(exercises, ids, n - 1);
    }
}

} // verus!
