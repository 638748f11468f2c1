use chrono::{Datelike, NaiveDate, Weekday};
use workout_tracker::calendar::days_from_monday;
use workout_tracker::history::{
    build_history_entry, compute_duration, format_weight, get_history_data, history_entry,
    parse_as_date_time_utc, span_text, ExerciseSets, HistoryError, TimestampError, WorkoutRecord,
};
use workout_tracker::templates::{get_templates, TemplateRow};
use workout_tracker::trend::{
    get_1_rep_maxes, get_1_rep_maxes_on, heaviest_weight, next_month, one_rep_max_trend,
    recent_months, smooth, Month, WeightRecord,
};
use workout_tracker::weekly::{
    count_starts, get_workouts_per_week, get_workouts_per_week_on, week_label_text,
};
use workout_tracker::wt_types::WorkoutSet;

fn day(y: i32, m: u32, d: u32) -> i32 {
    NaiveDate::from_ymd_opt(y, m, d).unwrap().num_days_from_ce()
}

fn set(reps: u32, kilograms: u64) -> WorkoutSet {
    WorkoutSet { reps, weight: kilograms * 1000 }
}

fn record(start: &str, grams: u64) -> WeightRecord {
    WeightRecord { start_time: start.to_string(), weight: grams }
}

#[test]
fn weekday_agrees_with_the_calendar() {
    for (y, m, d) in [(1, 1, 1), (1970, 1, 1), (2024, 2, 29), (2024, 3, 13), (1999, 12, 31), (0, 12, 31), (-44, 3, 15)] {
        let date = NaiveDate::from_ymd_opt(y, m, d).unwrap();
        assert_eq!(
            days_from_monday(date.num_days_from_ce()) as u32,
            date.weekday().num_days_from_monday(),
            "{}",
            date
        );
    }
    assert_eq!(days_from_monday(1), 0);
    assert_eq!(days_from_monday(0), 6);
    assert_eq!(days_from_monday(i32::MIN), ((i32::MIN as i64 - 1).rem_euclid(7)) as u8);
    assert_eq!(days_from_monday(i32::MAX), ((i32::MAX as i64 - 1).rem_euclid(7)) as u8);
}

#[test]
fn weekly_counts_one_workout_per_week() {
    let today = day(2024, 3, 13);
    let starts: Vec<String> = [
        "2024-01-22 00:00:00",
        "2024-02-04 23:59:59",
        "2024-02-07 12:00:00",
        "2024-02-12 06:30:00",
        "2024-02-25 18:00:00",
        "2024-02-29 09:00:00",
        "2024-03-08 07:45:00",
        "2024-03-13 10:00:00",
    ]
    .iter()
    .map(|s| s.to_string())
    .collect();
    let view = get_workouts_per_week_on(today, &starts).expect("the dates exist");
    assert_eq!(view.labels, vec!["22/1", "29/1", "5/2", "12/2", "19/2", "26/2", "4/3", "11/3"]);
    assert_eq!(view.data, vec![1, 1, 1, 1, 1, 1, 1, 1]);
    for label in &view.labels {
        let (d, m) = label.split_once('/').unwrap();
        let monday = NaiveDate::from_ymd_opt(2024, m.parse().unwrap(), d.parse().unwrap()).unwrap();
        assert_eq!(monday.weekday(), Weekday::Mon);
    }
}

#[test]
fn weekly_window_is_half_open() {
    let today = day(2024, 3, 17);
    let starts: Vec<String> = [
        "2024-03-11",
        "2024-03-10 23:59:59",
        "2024-03-17 23:59:59",
        "2024-03-18 00:00:00",
        "2024-01-21 23:59:59",
        "2024-01-22",
        "not a date",
    ]
    .iter()
    .map(|s| s.to_string())
    .collect();
    let view = get_workouts_per_week_on(today, &starts).expect("the dates exist");
    assert_eq!(view.labels[7], "11/3");
    assert_eq!(view.data, vec![1, 0, 0, 0, 0, 0, 1, 2]);
}

#[test]
fn weekly_of_a_monday_starts_that_day() {
    let view = get_workouts_per_week_on(day(2024, 3, 11), &Vec::new()).expect("the dates exist");
    assert_eq!(view.labels[7], "11/3");
    assert_eq!(view.labels[0], "22/1");
    assert_eq!(view.data, vec![0; 8]);
    let view = get_workouts_per_week_on(day(2024, 1, 3), &Vec::new()).expect("the dates exist");
    assert_eq!(view.labels, vec!["13/11", "20/11", "27/11", "4/12", "11/12", "18/12", "25/12", "1/1"]);
}

#[test]
fn weekly_outside_the_calendar_is_none() {
    assert!(get_workouts_per_week_on(i32::MAX, &Vec::new()).is_none());
    assert!(get_workouts_per_week_on(i32::MIN, &Vec::new()).is_none());
}

#[test]
fn weekly_now_has_eight_weeks() {
    let view = get_workouts_per_week(&vec!["1999-01-01 00:00:00".to_string()]).expect("today exists");
    assert_eq!(view.labels.len(), 8);
    assert_eq!(view.data, vec![0; 8]);
}

#[test]
fn months_wrap_over_the_year() {
    let months = recent_months(2024, 3);
    let expected: Vec<(i32, u32)> =
        vec![(2023, 8), (2023, 9), (2023, 10), (2023, 11), (2023, 12), (2024, 1), (2024, 2), (2024, 3)];
    assert_eq!(months.iter().map(|m| (m.year, m.month)).collect::<Vec<_>>(), expected);
    let months = recent_months(2024, 8);
    assert_eq!(months[0], Month { year: 2024, month: 1 });
    assert_eq!(months[7], Month { year: 2024, month: 8 });
    let months = recent_months(2024, 7);
    assert_eq!(months[0], Month { year: 2023, month: 12 });
    let months = recent_months(2024, 12);
    assert_eq!(months[0], Month { year: 2024, month: 5 });
    let months = recent_months(2024, 1);
    assert_eq!(months[0], Month { year: 2023, month: 6 });
    assert_eq!(months[6], Month { year: 2023, month: 12 });
}

#[test]
fn december_is_followed_by_january() {
    assert_eq!(next_month(Month { year: 2023, month: 12 }), Some(Month { year: 2024, month: 1 }));
    assert_eq!(next_month(Month { year: 2023, month: 11 }), Some(Month { year: 2023, month: 12 }));
    assert_eq!(next_month(Month { year: 2023, month: 1 }), Some(Month { year: 2023, month: 2 }));
    assert_eq!(next_month(Month { year: i32::MAX, month: 12 }), None);
}

#[test]
fn heaviest_weight_of_a_range() {
    let records = vec![
        record("2024-01-31 23:59:59", 90_000),
        record("2024-02-01 00:00:00", 60_000),
        record("2024-02-15 10:00:00", 80_000),
        record("2024-02-29 23:59:59", 70_000),
        record("2024-03-01 00:00:00", 99_000),
    ];
    assert_eq!(heaviest_weight(&records, "2024-02-01", "2024-03-01"), 80_000);
    assert_eq!(heaviest_weight(&records, "2024-04-01", "2024-05-01"), 0);
    assert_eq!(heaviest_weight(&records, "2024-01-01", "2024-02-01"), 90_000);
    assert_eq!(heaviest_weight(&Vec::new(), "2024-01-01", "2024-02-01"), 0);
}

#[test]
fn smoothing_carries_the_best_forward() {
    assert_eq!(smooth(&vec![0, 50, 40, 0, 60, 60, 10, 0]), vec![0, 50, 50, 50, 60, 60, 60, 60]);
    assert_eq!(smooth(&vec![5, 4, 3, 2, 1]), vec![5, 5, 5, 5, 5]);
    assert_eq!(smooth(&vec![1, 2, 3]), vec![1, 2, 3]);
    assert_eq!(smooth(&Vec::new()), Vec::<u64>::new());
    assert_eq!(smooth(&vec![u64::MAX, 0]), vec![u64::MAX, u64::MAX]);
}

#[test]
fn trend_never_decreases() {
    let records = vec![
        record("2023-07-31 23:00:00", 200_000),
        record("2023-09-10 10:00:00", 80_000),
        record("2023-09-20 10:00:00", 85_500),
        record("2023-11-02 10:00:00", 70_000),
        record("2023-12-31 23:59:59", 90_000),
        record("2024-01-01 00:00:00", 60_000),
        record("2024-03-13 10:00:00", 102_500),
        record("2024-04-01 00:00:00", 300_000),
    ];
    let trend = one_rep_max_trend(2024, 3, &records).expect("the months exist");
    assert_eq!(trend.labels, vec!["Aug", "Sep", "Oct", "Nov", "Dec", "Jan", "Feb", "Mar"]);
    assert_eq!(trend.data, vec![0, 85_500, 85_500, 85_500, 90_000, 90_000, 90_000, 102_500]);
    for i in 1..trend.data.len() {
        assert!(trend.data[i] >= trend.data[i - 1]);
    }
    let same = get_1_rep_maxes_on(day(2024, 3, 13), &records).expect("the day exists");
    assert_eq!(same.labels, trend.labels);
    assert_eq!(same.data, trend.data);
}

#[test]
fn trend_without_records_is_flat() {
    let trend = get_1_rep_maxes_on(day(2024, 12, 31), &Vec::new()).expect("the day exists");
    assert_eq!(trend.labels, vec!["May", "Jun", "Jul", "Aug", "Sep", "Oct", "Nov", "Dec"]);
    assert_eq!(trend.data, vec![0; 8]);
    assert!(get_1_rep_maxes_on(i32::MAX, &Vec::new()).is_none());
}

#[test]
fn trend_now_has_eight_months() {
    let trend = get_1_rep_maxes(&vec![record("1999-01-01 00:00:00", 5)]).expect("today exists");
    assert_eq!(trend.labels.len(), 8);
    assert_eq!(trend.data, vec![0; 8]);
}

#[test]
fn timestamps_are_read_as_utc() {
    assert_eq!(parse_as_date_time_utc("2015-09-05 23:56:04"), Ok(1441497364));
    assert_eq!(parse_as_date_time_utc("1970-01-01 00:00:00"), Ok(0));
    assert_eq!(parse_as_date_time_utc("1969-12-31 23:59:59"), Ok(-1));
    assert_eq!(parse_as_date_time_utc("2015-09-05T23:56:04"), Err(TimestampError::Malformed));
    assert_eq!(parse_as_date_time_utc("2015-09-05"), Err(TimestampError::Malformed));
    assert_eq!(parse_as_date_time_utc(""), Err(TimestampError::Malformed));
    assert_eq!(parse_as_date_time_utc("2015-13-05 23:56:04"), Err(TimestampError::Malformed));
}

#[test]
fn durations_are_hours_and_minutes() {
    assert_eq!(span_text(0, 0), "0h0m");
    assert_eq!(span_text(0, 59), "0h0m");
    assert_eq!(span_text(0, 3599), "0h59m");
    assert_eq!(span_text(0, 3600), "1h0m");
    assert_eq!(span_text(0, 5400), "1h30m");
    assert_eq!(span_text(0, 90061), "25h1m");
    assert_eq!(span_text(5400, 0), "-1h30m");
    assert_eq!(span_text(1800, 0), "0h30m");
    assert_eq!(span_text(i64::MIN, i64::MAX), "5124095576030431h0m");
    assert_eq!(
        compute_duration("2024-03-13 10:00:00", "2024-03-13 11:05:59"),
        Ok("1h5m".to_string())
    );
    assert_eq!(
        compute_duration("2024-03-13 11:05:00", "2024-03-13 10:00:00"),
        Ok("-1h5m".to_string())
    );
    assert_eq!(compute_duration("nonsense", "also nonsense"), Err(HistoryError::BadStartTime));
    assert_eq!(compute_duration("2024-03-13 10:00:00", "soon"), Err(HistoryError::BadEndTime));
}

#[test]
fn weights_are_written_in_kilograms() {
    assert_eq!(format_weight(0), "0");
    assert_eq!(format_weight(100_000), "100");
    assert_eq!(format_weight(102_500), "102.5");
    assert_eq!(format_weight(1_250), "1.25");
    assert_eq!(format_weight(1_005), "1.005");
    assert_eq!(format_weight(1_050), "1.05");
    assert_eq!(format_weight(999), "0.999");
    assert_eq!(format_weight(1), "0.001");
    assert_eq!(format_weight(10), "0.01");
    assert_eq!(format_weight(u64::MAX), "18446744073709551.615");
}

fn workout(start: &str, end: &str, exercises: Vec<ExerciseSets>) -> WorkoutRecord {
    WorkoutRecord { start_time: start.to_string(), end_time: end.to_string(), prs: 0, exercises }
}

#[test]
fn history_sums_the_volume() {
    let entry = history_entry(&workout(
        "2024-03-13 10:00:00",
        "2024-03-13 11:30:00",
        vec![
            ExerciseSets { name: "Bench Press".to_string(), sets: vec![set(10, 100), set(8, 110)] },
            ExerciseSets { name: "Curl".to_string(), sets: vec![set(12, 50)] },
        ],
    ))
    .expect("the timestamps are well formed");
    assert_eq!(entry.total_volume, 2480);
    assert_eq!(entry.date, "Wednesday, 13 Mar");
    assert_eq!(entry.date_epoch, 1710324000);
    assert_eq!(entry.duration, "1h30m");
    assert_eq!(entry.prs, 0);
    assert_eq!(entry.exercises.len(), 2);
    assert_eq!(entry.exercises[0].name, "Bench Press");
    assert_eq!(entry.exercises[0].sets.len(), 2);
    assert_eq!(entry.exercises[0].sets[0].reps, "10");
    assert_eq!(entry.exercises[0].sets[0].weight, "100");
    assert_eq!(entry.exercises[0].sets[1].reps, "8");
    assert_eq!(entry.exercises[0].sets[1].weight, "110");
    assert_eq!(entry.exercises[1].name, "Curl");
    assert_eq!(entry.exercises[1].sets[0].reps, "12");
    assert_eq!(entry.exercises[1].sets[0].weight, "50");
}

#[test]
fn history_drops_fractions_set_by_set() {
    let entry = history_entry(&workout(
        "2024-03-13 10:00:00",
        "2024-03-13 10:00:00",
        vec![ExerciseSets {
            name: "Press".to_string(),
            sets: vec![
                WorkoutSet { reps: 3, weight: 102_500 },
                WorkoutSet { reps: 1, weight: 999 },
                WorkoutSet { reps: 0, weight: 50_000 },
            ],
        }],
    ))
    .expect("the timestamps are well formed");
    assert_eq!(entry.total_volume, 307);
    assert_eq!(entry.exercises[0].sets[0].weight, "102.5");
    assert_eq!(entry.duration, "0h0m");
}

#[test]
fn history_volume_stops_at_the_largest_number() {
    let entry = history_entry(&workout(
        "2024-03-13 10:00:00",
        "2024-03-13 10:00:00",
        vec![ExerciseSets {
            name: "Press".to_string(),
            sets: vec![WorkoutSet { reps: u32::MAX, weight: u64::MAX }, set(1, 1)],
        }],
    ))
    .expect("the timestamps are well formed");
    assert_eq!(entry.total_volume, u64::MAX);
}

#[test]
fn history_fails_on_a_malformed_timestamp() {
    let good = || workout("2024-03-13 10:00:00", "2024-03-13 11:00:00", Vec::new());
    assert_eq!(
        history_entry(&workout("2024-03-13 10:00:00", "later", Vec::new())).unwrap_err(),
        HistoryError::BadEndTime
    );
    assert_eq!(
        history_entry(&workout("13.03.2024", "later", Vec::new())).unwrap_err(),
        HistoryError::BadStartTime
    );
    let all = vec![good(), workout("2024-03-12 10:00:00", "", Vec::new()), workout("1x", "y", Vec::new())];
    assert_eq!(get_history_data(&all).unwrap_err(), HistoryError::BadEndTime);
    let all = vec![good(), workout("2024-03-12 10:00:00", "", Vec::new()), workout("x", "y", Vec::new())];
    assert_eq!(get_history_data(&all).unwrap_err(), HistoryError::BadStartTime);
    let fine = get_history_data(&vec![good(), workout("2024-03-12 10:00:00", "2024-03-12 10:45:00", Vec::new())])
        .expect("both are well formed");
    assert_eq!(fine.len(), 2);
    assert_eq!(fine[0].date, "Wednesday, 13 Mar");
    assert_eq!(fine[1].date, "Tuesday, 12 Mar");
    assert_eq!(fine[1].duration, "0h45m");
    assert_eq!(get_history_data(&Vec::new()).expect("nothing can fail").len(), 0);
}

#[test]
fn history_is_newest_first() {
    let named = |start: &str, name: &str| {
        workout(start, start, vec![ExerciseSets { name: name.to_string(), sets: Vec::new() }])
    };
    let entries = get_history_data(&vec![
        named("2024-03-11 10:00:00", "a"),
        named("2024-03-13 10:00:00", "b"),
        named("2024-03-12 10:00:00", "c"),
        named("2024-03-13 10:00:00", "d"),
        named("2023-12-31 23:59:59", "e"),
        named("2024-03-13 10:00:01", "f"),
    ])
    .expect("all are well formed");
    let names: Vec<&str> = entries.iter().map(|e| e.exercises[0].name.as_str()).collect();
    assert_eq!(names, vec!["f", "b", "d", "c", "a", "e"]);
    let epochs: Vec<u64> = entries.iter().map(|e| e.date_epoch).collect();
    for pair in epochs.windows(2) {
        assert!(pair[0] >= pair[1]);
    }
}

#[test]
fn history_before_1970_wraps_the_epoch() {
    let entry = history_entry(&workout("1969-12-31 23:59:59", "1970-01-01 00:00:00", Vec::new()))
        .expect("the timestamps are well formed");
    assert_eq!(entry.date_epoch, u64::MAX);
    assert_eq!(entry.date, "Wednesday, 31 Dec");
}

fn row(id: u32, name: &str, exercise: Option<(u32, &str, &str)>, sets: u32) -> TemplateRow {
    TemplateRow {
        template_id: id,
        template_name: name.to_string(),
        created_at: format!("2024-03-{:02} 10:00:00", id),
        exercise_id: exercise.map(|e| e.0),
        exercise_name: exercise.map(|e| e.1.to_string()),
        muscle_group: exercise.map(|e| e.2.to_string()),
        sets,
    }
}

#[test]
fn template_rows_are_gathered_by_id() {
    let rows = vec![
        row(1, "Push", Some((10, "Bench Press", "Chest")), 3),
        row(1, "ignored", Some((11, "Dip", "Triceps")), 4),
        row(2, "Empty", None, 0),
        row(3, "Pull", Some((12, "Row", "Back")), 5),
        row(1, "Again", Some((13, "Fly", "Chest")), 2),
    ];
    let templates = get_templates(&rows);
    assert_eq!(templates.len(), 4);
    assert_eq!(templates[0].id, 1);
    assert_eq!(templates[0].name, "Push");
    assert_eq!(templates[0].created_at, "2024-03-01 10:00:00");
    assert_eq!(templates[0].exercises.len(), 2);
    assert_eq!(templates[0].exercises[0].exercise_id, 10);
    assert_eq!(templates[0].exercises[0].name, "Bench Press");
    assert_eq!(templates[0].exercises[0].muscle_group, "Chest");
    assert_eq!(templates[0].exercises[0].sets, 3);
    assert_eq!(templates[0].exercises[1].exercise_id, 11);
    assert_eq!(templates[0].exercises[1].sets, 4);
    assert_eq!(templates[1].id, 2);
    assert_eq!(templates[1].name, "Empty");
    assert!(templates[1].exercises.is_empty());
    assert_eq!(templates[2].id, 3);
    assert_eq!(templates[2].exercises.len(), 1);
    assert_eq!(templates[3].id, 1);
    assert_eq!(templates[3].name, "Again");
    assert_eq!(templates[3].exercises[0].name, "Fly");
    assert!(get_templates(&Vec::new()).is_empty());
}

#[test]
fn template_row_needs_all_three_columns() {
    let mut partial = row(1, "Push", Some((10, "Bench Press", "Chest")), 3);
    partial.muscle_group = None;
    let templates = get_templates(&vec![partial, row(1, "Push", Some((11, "Dip", "Triceps")), 4)]);
    assert_eq!(templates.len(), 1);
    assert_eq!(templates[0].exercises.len(), 1);
    assert_eq!(templates[0].exercises[0].exercise_id, 11);
}

#[test]
fn week_labels_have_no_leading_zeros() {
    assert_eq!(week_label_text(5, 2), "5/2");
    assert_eq!(week_label_text(22, 1), "22/1");
    assert_eq!(week_label_text(31, 12), "31/12");
    assert_eq!(week_label_text(0, 0), "0/0");
}

#[test]
fn starts_are_counted_in_a_half_open_range() {
    let starts: Vec<String> =
        ["2024-03-11 00:00:00", "2024-03-11", "2024-03-17 23:59:59", "2024-03-18", "2024-03-10 23:59:59", ""]
            .iter()
            .map(|s| s.to_string())
            .collect();
    assert_eq!(count_starts(&starts, "2024-03-11", "2024-03-18"), 3);
    assert_eq!(count_starts(&starts, "2024-03-18", "2024-03-11"), 0);
    assert_eq!(count_starts(&starts, "", "3"), 6);
    assert_eq!(count_starts(&Vec::new(), "", "3"), 0);
}

#[test]
fn history_entry_is_built_from_its_instants() {
    let stored = workout(
        "ignored",
        "ignored",
        vec![ExerciseSets { name: "Squat".to_string(), sets: vec![set(5, 140), set(5, 150)] }],
    );
    let entry = build_history_entry(&stored, 1_710_324_000, 1_710_327_900, "Some day".to_string());
    assert_eq!(entry.date, "Some day");
    assert_eq!(entry.date_epoch, 1_710_324_000);
    assert_eq!(entry.duration, "1h5m");
    assert_eq!(entry.prs, 0);
    assert_eq!(entry.total_volume, 1450);
    assert_eq!(entry.exercises.len(), 1);
    assert_eq!(entry.exercises[0].name, "Squat");
    assert_eq!(entry.exercises[0].sets[1].reps, "5");
    assert_eq!(entry.exercises[0].sets[1].weight, "150");
    let early = build_history_entry(&stored, -2, -1, String::new());
    assert_eq!(early.date_epoch, u64::MAX - 1);
    assert_eq!(early.duration, "0h0m");
}
