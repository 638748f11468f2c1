use workout_tracker::catalog::{best_set, describe_best_set, get_user_exercises, CatalogRow};
use workout_tracker::database_handler::Exercise;
use workout_tracker::retention::{
    cleanup_directory, file_is_stale, swept_directories, Entry, MAX_AGE_SECONDS,
    SWEEP_INTERVAL_SECONDS,
};
use workout_tracker::routes::{convert_db_exercise, convert_db_exercises};
use workout_tracker::tracker::{add_edited_suffix, file_name};
use workout_tracker::workout_log::{save_workout, workout_row, SetInsert};
use workout_tracker::wt_types::{ExerciseRecord, Workout, WorkoutSet};

fn set(reps: u32, grams: u64) -> WorkoutSet {
    WorkoutSet { reps, weight: grams }
}

#[test]
fn best_set_has_the_greatest_load() {
    assert_eq!(best_set(&Vec::new()), set(0, 0));
    assert_eq!(best_set(&vec![set(5, 0)]), set(5, 0));
    assert_eq!(best_set(&vec![set(10, 100_000), set(8, 110_000), set(12, 50_000)]), set(10, 100_000));
    assert_eq!(best_set(&vec![set(1, 10), set(2, 5), set(5, 2)]), set(1, 10));
    assert_eq!(best_set(&vec![set(1, 10), set(3, 5), set(5, 3)]), set(3, 5));
    assert_eq!(
        best_set(&vec![set(u32::MAX, u64::MAX - 1), set(u32::MAX, u64::MAX)]),
        set(u32::MAX, u64::MAX)
    );
}

#[test]
fn best_set_is_written_with_its_unit() {
    assert_eq!(describe_best_set(set(10, 100_000)), "10 x 100kg");
    assert_eq!(describe_best_set(set(8, 102_500)), "8 x 102.5kg");
    assert_eq!(describe_best_set(set(0, 0)), "0 x 0kg");
}

#[test]
fn catalogue_entries_carry_their_best_set() {
    let rows = vec![
        CatalogRow {
            id: 4,
            user_id: 2,
            name: "Bench Press".to_string(),
            description: None,
            muscle_group: "Chest".to_string(),
            sets: vec![set(10, 100_000), set(8, 130_000)],
        },
        CatalogRow {
            id: 5,
            user_id: 2,
            name: "Row".to_string(),
            description: Some("seated".to_string()),
            muscle_group: "Back".to_string(),
            sets: Vec::new(),
        },
    ];
    let entries = get_user_exercises(&rows);
    assert_eq!(entries.len(), 2);
    assert_eq!(entries[0].id, 4);
    assert_eq!(entries[0]._user_id, 2);
    assert_eq!(entries[0].name, "Bench Press");
    assert_eq!(entries[0]._description, None);
    assert_eq!(entries[0].muscle_group, "Chest");
    assert_eq!(entries[0].best_set, Some("8 x 130kg".to_string()));
    assert_eq!(entries[1]._description, Some("seated".to_string()));
    assert_eq!(entries[1].best_set, Some("0 x 0kg".to_string()));
    let sent = convert_db_exercises(&entries);
    assert_eq!(sent.len(), 2);
    assert_eq!(sent[0].id, 4);
    assert_eq!(sent[0].name, "Bench Press");
    assert_eq!(sent[0].body_part, "Chest");
    assert_eq!(sent[0].best_set, "8 x 130kg");
    assert_eq!(sent[1].best_set, "0 x 0kg");
}

#[test]
fn entry_without_best_set_is_sent_with_an_empty_one() {
    let stored = Exercise {
        id: 1,
        _user_id: 2,
        name: "Squat".to_string(),
        _description: None,
        muscle_group: "Legs".to_string(),
        best_set: None,
    };
    let sent = convert_db_exercise(&stored);
    assert_eq!(sent.id, 1);
    assert_eq!(sent.name, "Squat");
    assert_eq!(sent.body_part, "Legs");
    assert_eq!(sent.best_set, "");
}

fn workout() -> Workout {
    Workout {
        user_id: "token".to_string(),
        start_time: "2024-03-13 10:00:00".to_string(),
        end_time: "2024-03-13 11:00:00".to_string(),
        exercises: vec![
            ExerciseRecord { exercise_id: 7, sets: vec![set(10, 100_000), set(8, 110_000)] },
            ExerciseRecord { exercise_id: 8, sets: Vec::new() },
            ExerciseRecord { exercise_id: 9, sets: vec![set(12, 50_000)] },
        ],
        notes: "felt strong".to_string(),
    }
}

#[test]
fn workout_is_stored_without_notes() {
    let row = workout_row(&workout(), 5);
    assert_eq!(row.user_id, 5);
    assert_eq!(row.start_time, "2024-03-13 10:00:00");
    assert_eq!(row.end_time, "2024-03-13 11:00:00");
    assert_eq!(row.notes, "");
    assert_eq!(row.prs, 0);
}

#[test]
fn sets_are_numbered_from_one() {
    let rows = save_workout(&workout(), &vec![21, 22, 23]);
    assert_eq!(
        rows,
        vec![
            SetInsert { workout_exercise_id: 21, set_number: 1, weight: 100_000, reps: 10 },
            SetInsert { workout_exercise_id: 21, set_number: 2, weight: 110_000, reps: 8 },
            SetInsert { workout_exercise_id: 23, set_number: 1, weight: 50_000, reps: 12 },
        ]
    );
    assert_eq!(save_workout(&workout(), &vec![21]).len(), 2);
    assert_eq!(save_workout(&workout(), &Vec::new()).len(), 0);
    assert_eq!(save_workout(&workout(), &vec![1, 2, 3, 4]).len(), 3);
}

#[test]
fn edited_copy_lies_beside_the_video() {
    assert_eq!(
        add_edited_suffix("./uploads/2024-03-13T10-20-30+00-00_clip.mp4"),
        Some("./uploads/2024-03-13T10-20-30+00-00_clip-edited.mp4".to_string())
    );
    assert_eq!(add_edited_suffix("clip.mp4"), Some("clip-edited.mp4".to_string()));
    assert_eq!(add_edited_suffix("a/b.tar.gz"), Some("a/b.tar-edited.mp4".to_string()));
    assert_eq!(add_edited_suffix("a/clip"), Some("a/clip-edited.mp4".to_string()));
    assert_eq!(add_edited_suffix("a/.hidden"), Some("a/.hidden-edited.mp4".to_string()));
    assert_eq!(add_edited_suffix("/clip.mov"), Some("/clip-edited.mp4".to_string()));
    assert_eq!(add_edited_suffix(""), None);
    assert_eq!(add_edited_suffix("a/"), None);
    assert_eq!(add_edited_suffix(".."), None);
    assert_eq!(add_edited_suffix("a/.."), None);
}

#[test]
fn file_name_is_the_last_segment() {
    assert_eq!(file_name("processed/abcdefghij.mp4"), Some("abcdefghij.mp4".to_string()));
    assert_eq!(file_name("abc"), Some("abc".to_string()));
    assert_eq!(file_name("/a/b/c.d"), Some("c.d".to_string()));
    assert_eq!(file_name("a/..."), Some("...".to_string()));
    assert_eq!(file_name("a/."), Some(".".to_string()));
    assert_eq!(file_name("/"), None);
    assert_eq!(file_name(""), None);
    assert_eq!(file_name("a/b/.."), None);
}

const SECOND: u128 = 1_000_000_000;

#[test]
fn sweep_runs_every_ten_minutes() {
    assert_eq!(SWEEP_INTERVAL_SECONDS, 600);
    assert_eq!(MAX_AGE_SECONDS, 3600);
    assert_eq!(swept_directories(), vec!["./processed", "./uploads"]);
}

#[test]
fn files_older_than_an_hour_are_stale() {
    let now = 10_000 * SECOND;
    assert!(!file_is_stale(now, now));
    assert!(!file_is_stale(now - 3600 * SECOND, now));
    assert!(file_is_stale(now - 3600 * SECOND - 1, now));
    assert!(file_is_stale(0, now));
    assert!(!file_is_stale(now + 7200 * SECOND, now));
    assert!(!file_is_stale(u128::MAX, 0));
    assert!(file_is_stale(0, u128::MAX));
}

#[test]
fn sweep_deletes_old_regular_files() {
    let now = 10_000 * SECOND;
    let file = |path: &str, age: u128| Entry::File { path: path.to_string(), modified: now - age * SECOND };
    let entries = vec![
        file("./uploads/old.mp4", 3601),
        file("./uploads/new.mp4", 10),
        Entry::Other,
        file("./uploads/edge.mp4", 3600),
        file("./uploads/older.mp4", 9000),
    ];
    let sweep = cleanup_directory(&entries, now);
    assert_eq!(sweep.delete, vec!["./uploads/old.mp4", "./uploads/older.mp4"]);
    assert!(!sweep.aborted);
    let empty = cleanup_directory(&Vec::new(), now);
    assert!(empty.delete.is_empty());
    assert!(!empty.aborted);
}

#[test]
fn sweep_ends_at_an_unreadable_entry() {
    let now = 10_000 * SECOND;
    let entries = vec![
        Entry::File { path: "a".to_string(), modified: 0 },
        Entry::Unreadable,
        Entry::File { path: "b".to_string(), modified: 0 },
    ];
    let sweep = cleanup_directory(&entries, now);
    assert_eq!(sweep.delete, vec!["a"]);
    assert!(sweep.aborted);
    let sweep = cleanup_directory(&vec![Entry::Unreadable], now);
    assert!(sweep.delete.is_empty());
    assert!(sweep.aborted);
}
