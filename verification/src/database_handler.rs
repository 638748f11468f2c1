//! What the store holds and what is sent of it: the requests that add to
//! the store, and the rows of the views that are derived from it. The
//! store itself is not touched here.

use vstd::prelude::*;

verus! {

#[derive(Debug)]
pub struct HistorySet {
    pub reps: String,
    pub weight: String,
}

#[derive(Debug)]
pub struct HistoryExercise {
    pub name: String,
    pub sets: Vec<HistorySet>,
}

#[derive(Debug)]
pub struct HistoryData {
    pub date: String,
    pub date_epoch: u64,
    pub duration: String,
    pub prs: u32,
    pub total_volume: u64,
    pub exercises: Vec<HistoryExercise>,
}

/// A catalogue entry as it is stored, with its best set as derived when
/// the entry is read.
#[derive(Debug)]
pub struct Exercise {
    pub id: u32,
    pub _user_id: u32,
    pub name: String,
    pub _description: Option<String>,
    pub muscle_group: String,
    pub best_set: Option<String>,
}

#[derive(Debug)]
pub struct Template {
    pub id: u32,
    pub name: String,
    pub created_at: String,
    pub exercises: Vec<TemplateExercise>,
}

#[derive(Debug)]
pub struct TemplateExercise {
    pub exercise_id: u32,
    pub name: String,
    pub muscle_group: String,
    pub sets: u32,
}

/// Workouts counted by week, oldest week first.
#[derive(Debug)]
pub struct WorkoutsPerWeek {
    pub labels: Vec<String>,
    pub data: Vec<u32>,
}

/// The best weight to date by month, in grams, oldest month first.
#[derive(Debug)]
pub struct OneRepMaxes {
    pub labels: Vec<String>,
    pub data: Vec<u64>,
}

#[derive(Debug)]
pub struct ExerciseRequest {
    pub user_id: String,
    pub name: String,
    pub body_part: String,
}

#[derive(Debug)]
pub struct TemplateRequest {
    pub user_id: String,
    pub name: String,
    pub exercises: Vec<TemplateExerciseRequest>,
}

#[derive(Clone, Copy, Debug, PartialEq, Eq, Structural)]
pub struct TemplateExerciseRequest {
    pub exercise_id: u32,
    pub sets: u32,
}

} // verus!
