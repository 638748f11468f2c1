//! What a client sends and receives: the exercise catalogue entry and the
//! workout that is logged. Weights are whole grams.

use vstd::prelude::*;

verus! {

/// A catalogue entry as the client sees it.
#[derive(Debug)]
pub struct Exercise {
    pub id: u32,
    pub name: String,
    pub body_part: String,
    pub best_set: String,
}

/// One set: how often a weight, in grams, was lifted.
#[derive(Clone, Copy, Debug, PartialEq, Eq, Structural)]
pub struct WorkoutSet {
    pub reps: u32,
    pub weight: u64,
}

/// The sets of one exercise of a workout, in the order performed.
#[derive(Debug)]
pub struct ExerciseRecord {
    pub exercise_id: u32,
    pub sets: Vec<WorkoutSet>,
}

/// A workout as it is logged.
#[derive(Debug)]
pub struct Workout {
    pub user_id: String,
    pub start_time: String,
    pub end_time: String,
    pub exercises: Vec<ExerciseRecord>,
    pub notes: String,
}

} // verus!
