//! Templates, gathered from the rows of the join of templates with their
//! exercises.

use vstd::prelude::*;
use crate::database_handler::{Template, TemplateExercise};

verus! {

/// One row of the join of templates with their exercises. The three
/// optional columns are empty for a template without exercises.
#[derive(Debug)]
pub struct TemplateRow {
    pub template_id: u32,
    pub template_name: String,
    pub created_at: String,
    pub exercise_id: Option<u32>,
    pub exercise_name: Option<String>,
    pub muscle_group: Option<String>,
    pub sets: u32,
}

/// What a `TemplateExercise` holds.
pub struct TemplateExerciseModel {
    pub exercise_id: u32,
    pub name: Seq<char>,
    pub muscle_group: Seq<char>,
    pub sets: u32,
}

/// What a `Template` holds.
pub struct TemplateModel {
    pub id: u32,
    pub name: Seq<char>,
    pub created_at: Seq<char>,
    pub exercises: Seq<TemplateExerciseModel>,
}

/// What a `TemplateRow` holds.
pub struct TemplateRowModel {
    pub template_id: u32,
    pub template_name: Seq<char>,
    pub created_at: Seq<char>,
    pub exercise: Option<TemplateExerciseModel>,
}

impl View for TemplateExercise {
    type V = TemplateExerciseModel;

    open spec fn view(&self) -> TemplateExerciseModel {
        TemplateExerciseModel {
            exercise_id: self.exercise_id,
            name: self.name@,
            muscle_group: self.muscle_group@,
            sets: self.sets,
        }
    }
}

impl View for Template {
    type V = TemplateModel;

    open spec fn view(&self) -> TemplateModel {
        TemplateModel {
            id: self.id,
            name: self.name@,
            created_at: self.created_at@,
            exercises: exercise_models(self.exercises@),
        }
    }
}

/// The views of a sequence of template exercises.
pub open spec fn exercise_models(exercises: Seq<TemplateExercise>) -> Seq<TemplateExerciseModel> {
    Seq::new(exercises.len(), |i: int| exercises[i]@)
}

impl View for TemplateRow {
    type V = TemplateRowModel;

    /// A row names an exercise only when its id, its name and its muscle
    /// group are all present.
    open spec fn view(&self) -> TemplateRowModel {
        TemplateRowModel {
            template_id: self.template_id,
            template_name: self.template_name@,
            created_at: self.created_at@,
            exercise: match (self.exercise_id, self.exercise_name, self.muscle_group) {
                (Some(id), Some(name), Some(group)) => Some(
                    TemplateExerciseModel {
                        exercise_id: id,
                        name: name@,
                        muscle_group: group@,
                        sets: self.sets,
                    },
                ),
                _ => None,
            },
        }
    }
}

/// The views of a sequence of rows.
pub open spec fn row_models(rows: Seq<TemplateRow>) -> Seq<TemplateRowModel> {
    Seq::new(rows.len(), |i: int| rows[i]@)
}

/// The views of a sequence of templates.
pub open spec fn template_models(templates: Seq<Template>) -> Seq<TemplateModel> {
    Seq::new(templates.len(), |i: int| templates[i]@)
}

/// The exercises that one row adds to its template: one or none.
pub open spec fn row_exercises(row: TemplateRowModel) -> Seq<TemplateExerciseModel> {
    match row.exercise {
        Some(exercise) => seq![exercise],
        None => Seq::empty(),
    }
}

/// The templates that `rows` describe. Neighbouring rows with one
/// template id make one template, which takes its name and creation time
/// from the first of them and its exercises from all of them, in order.
pub open spec fn grouped(rows: Seq<TemplateRowModel>) -> Seq<TemplateModel>
    decreases rows.len(),
{
    if rows.len() == 0 {
        Seq::empty()
    } else {
        let before = grouped(rows.drop_last());
        let row = rows.last();
        if before.len() > 0 && before.last().id == row.template_id {
            before.drop_last().push(
                TemplateModel {
                    exercises: before.last().exercises + row_exercises(row),
                    ..before.last()
                },
            )
        } else {
            before.push(
                TemplateModel {
                    id: row.template_id,
                    name: row.template_name,
                    created_at: row.created_at,
                    exercises: row_exercises(row),
                },
            )
        }
    }
}

/// Appends to `exercises` the exercise that `row` names, if it names one.
fn push_row_exercise(exercises: &mut Vec<TemplateExercise>, row: &TemplateRow)
    ensures
        exercise_models(final(exercises)@) == exercise_models(old(exercises)@) + row_exercises(
            row@,
        ),
{
    let ghost before = exercise_models(exercises@);
    match (&row.exercise_id, &row.exercise_name, &row.muscle_group) {
        (Some(id), Some(name), Some(group)) => {
            exercises.push(
                TemplateExercise {
                    exercise_id: *id,
                    name: name.clone(),
                    muscle_group: group.clone(),
                    sets: row.sets,
                },
            );
            proof {
                assert(exercise_models(exercises@) =~= before + row_exercises(row@));
            }
        },
        _ => {
            proof {
                assert(exercise_models(exercises@) =~= before + row_exercises(row@));
            }
        },
    }
}

/// Gathers the rows of the template join into templates.
pub fn get_templates(rows: &Vec<TemplateRow>) -> (templates: Vec<Template>)
    ensures
        template_models(templates@) == grouped(row_models(rows@)),
{
    let mut done: Vec<Template> = Vec::new();
    let mut current: Option<Template> = None;
    let mut i: usize = 0;
    let ghost all = row_models(rows@);
    proof {
        assert(template_models(done@) =~= Seq::<TemplateModel>::empty());
    }
    while i < rows.len()
        invariant
            i <= rows@.len(),
            all == row_models(rows@),
            current is None ==> done@.len() == 0,
            grouped(all.take(i as int)) =~= template_models(done@) + (match current {
                Some(t) => seq![t@],
                None => Seq::<TemplateModel>::empty(),
            }),
        decreases rows@.len() - i,
    {
        let row = &rows[i];
        let ghost before = grouped(all.take(i as int));
        let ghost old_done = template_models(done@);
        proof {
            assert(all.take(i + 1).drop_last() =~= all.take(i as int));
            assert(all.take(i + 1).last() == row@);
        }
        let ghost target = grouped(all.take(i + 1));
        let next: Template = match current {
            Some(open) => {
                proof {
                    assert(before.last() == open@);
                    assert(before.drop_last() =~= old_done);
                }
                if open.id == row.template_id {
                    let mut open = open;
                    let ghost old_open = open@;
                    push_row_exercise(&mut open.exercises, row);
                    proof {
                        assert(open@ == TemplateModel {
                            exercises: old_open.exercises + row_exercises(row@),
                            ..old_open
                        });
                        assert(target =~= old_done + seq![open@]);
                    }
                    open
                } else {
                    done.push(open);
                    let mut exercises: Vec<TemplateExercise> = Vec::new();
                    push_row_exercise(&mut exercises, row);
                    let fresh = Template {
                        id: row.template_id,
                        name: row.template_name.clone(),
                        created_at: row.created_at.clone(),
                        exercises,
                    };
                    proof {
                        assert(template_models(done@) =~= before);
                        assert(exercise_models(Seq::<TemplateExercise>::empty()) + row_exercises(
                            row@,
                        ) =~= row_exercises(row@));
                        assert(target =~= template_models(done@) + seq![fresh@]);
                    }
                    fresh
                }
            },
            None => {
                let mut exercises: Vec<TemplateExercise> = Vec::new();
                push_row_exercise(&mut exercises, row);
                let fresh = Template {
                    id: row.template_id,
                    name: row.template_name.clone(),
                    created_at: row.created_at.clone(),
                    exercises,
                };
                proof {
                    assert(before.len() == 0);
                    assert(exercise_models(Seq::<TemplateExercise>::empty()) + row_exercises(
                        row@,
                    ) =~= row_exercises(row@));
                    assert(target =~= template_models(done@) + seq![fresh@]);
                }
                fresh
            },
        };
        current = Some(next);
        i += 1;
    }
    proof {
        assert(all.take(rows@.len() as int) =~= all);
    }
    match current {
        Some(open) => {
            let ghost old_done = template_models(done@);
            let ghost last = open@;
            done.push(open);
            proof {
                assert(template_models(done@) =~= old_done + seq![last]);
            }
        },
        None => {},
    }
    done
}

} // verus!
