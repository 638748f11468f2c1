//! The exercise catalogue as it is read: each entry with its best set,
//! which is derived from all sets ever logged for it and never stored.

use vstd::prelude::*;
use vstd::string::*;
use crate::database_handler::Exercise;
use crate::history::{push_weight, weight_text};
use crate::text::{decimal, push_decimal};
use crate::wt_types::WorkoutSet;

verus! {

/// What the store holds of a catalogue entry, with every set that was
/// ever logged for it.
#[derive(Debug)]
pub struct CatalogRow {
    pub id: u32,
    pub user_id: u32,
    pub name: String,
    pub description: Option<String>,
    pub muscle_group: String,
    pub sets: Vec<WorkoutSet>,
}

/// The load of a set: its weight times its repetitions.
pub open spec fn set_load(set: WorkoutSet) -> nat {
    (set.weight * set.reps) as nat
}

/// The best of `sets`: the first one of the greatest load. Where there is
/// no set, the set of no repetitions of no weight stands for it.
pub open spec fn best_of(sets: Seq<WorkoutSet>) -> WorkoutSet
    decreases sets.len(),
{
    if sets.len() == 0 {
        WorkoutSet { reps: 0, weight: 0 }
    } else if sets.len() == 1 {
        sets[0]
    } else {
        let before = best_of(sets.drop_last());
        if set_load(sets.last()) > set_load(before) {
            sets.last()
        } else {
            before
        }
    }
}

/// The best of `sets` is one of them and no set has a greater load.
pub proof fn lemma_best_is_greatest(sets: Seq<WorkoutSet>)
    requires
        sets.len() > 0,
    ensures
        sets.contains(best_of(sets)),
        forall|i: int| 0 <= i < sets.len() ==> set_load(#[trigger] sets[i]) <= set_load(
            best_of(sets),
        ),
    decreases sets.len(),
{
    if sets.len() == 1 {
        assert(sets[0] == best_of(sets));
    } else {
        let shorter = sets.drop_last();
        lemma_best_is_greatest(shorter);
        let before = best_of(shorter);
        let at = choose|i: int| 0 <= i < shorter.len() && shorter[i] == before;
        assert(sets[at] == before);
        assert(sets[sets.len() - 1] == sets.last());
        assert forall|i: int| 0 <= i < sets.len() implies set_load(#[trigger] sets[i]) <= set_load(
            best_of(sets),
        ) by {
            if i < shorter.len() {
                assert(sets[i] == shorter[i]);
            }
        }
    }
}

fn load_of(set: WorkoutSet) -> (load: u128)
    ensures
        load == set_load(set),
{
    assert(set.weight * set.reps <= 0xffff_ffff_ffff_ffff * 0xffff_ffff) by (nonlinear_arith)
        requires
            0 <= set.weight <= 0xffff_ffff_ffff_ffff,
            0 <= set.reps <= 0xffff_ffff,
    ;
    set.weight as u128 * set.reps as u128
}

/// Finds the best of `sets`.
pub fn best_set(sets: &Vec<WorkoutSet>) -> (best: WorkoutSet)
    ensures
        best == best_of(sets@),
{
    if sets.len() == 0 {
        return WorkoutSet { reps: 0, weight: 0 };
    }
    let mut best = sets[0];
    let mut i: usize = 1;
    proof {
        assert(sets@.take(1).len() == 1);
    }
    while i < sets.len()
        invariant
            1 <= i <= sets@.len(),
            best == best_of(sets@.take(i as int)),
        decreases sets@.len() - i,
    {
        proof {
            assert(sets@.take(i + 1).drop_last() =~= sets@.take(i as int));
            assert(sets@.take(i + 1).last() == sets@[i as int]);
        }
        if load_of(sets[i]) > load_of(best) {
            best = sets[i];
        }
        i += 1;
    }
    proof {
        assert(sets@.take(sets@.len() as int) =~= sets@);
    }
    best
}

/// How a best set is written: the repetitions, ` x `, the weight in
/// kilograms, `kg`.
pub open spec fn best_set_text(set: WorkoutSet) -> Seq<char> {
    decimal(set.reps as nat) + " x "@ + weight_text(set.weight as nat) + "kg"@
}

/// Writes a best set.
pub fn describe_best_set(set: WorkoutSet) -> (text: String)
    ensures
        text@ == best_set_text(set),
{
    let mut text = String::new();
    push_decimal(&mut text, set.reps as u64);
    text.append(" x ");
    push_weight(&mut text, set.weight);
    text.append("kg");
    proof {
        assert(text@ =~= best_set_text(set));
    }
    text
}

/// Whether `entry` is the catalogue entry that `row` gives.
pub open spec fn is_entry_of(entry: Exercise, row: CatalogRow) -> bool {
    &&& entry.id == row.id
    &&& entry._user_id == row.user_id
    &&& entry.name@ == row.name@
    &&& entry._description == row.description
    &&& entry.muscle_group@ == row.muscle_group@
    &&& entry.best_set is Some
    &&& entry.best_set->0@ == best_set_text(best_of(row.sets@))
}

/// Derives the catalogue entries from what the store holds, in order.
pub fn get_user_exercises(rows: &Vec<CatalogRow>) -> (entries: Vec<Exercise>)
    ensures
        entries@.len() == rows@.len(),
        forall|i: int| 0 <= i < rows@.len() ==> is_entry_of(#[trigger] entries@[i], rows@[i]),
{
    let mut entries: Vec<Exercise> = Vec::new();
    let mut i: usize = 0;
    while i < rows.len()
        invariant
            i <= rows@.len(),
            entries@.len() == i,
            forall|j: int| 0 <= j < i ==> is_entry_of(#[trigger] entries@[j], rows@[j]),
        decreases rows@.len() - i,
    {
        let row = &rows[i];
        entries.push(
            Exercise {
                id: row.id,
                _user_id: row.user_id,
                name: row.name.clone(),
                _description: row.description.clone(),
                muscle_group: row.muscle_group.clone(),
                best_set: Some(describe_best_set(best_set(&row.sets))),
            },
        );
        i += 1;
    }
    entries
}

} // verus!
