use workout_tracker::database_handler::{ExerciseRequest, TemplateExerciseRequest, TemplateRequest};
use workout_tracker::protocol::{parse_query, QueryParams};
use workout_tracker::routes::{
    handle_add_exercise_route, handle_exercises_route, handle_history_route, handle_login_route,
    handle_metadata_upload, handle_one_rep_max_route, handle_previous_sets_route,
    handle_register_route, handle_save_template_route, handle_templates_route,
    handle_workout_route, handle_workouts_per_week_route, video_url, Body, Credentials,
    Processing, Step, StorageCall,
};
use workout_tracker::wt_types::{ExerciseRecord, Workout, WorkoutSet};

type Answer<T> = Option<Result<T, String>>;
type ViewHandler = fn(&QueryParams, Answer<u32>, Answer<String>) -> Step;

fn reply(step: Step) -> (String, String, String) {
    match step {
        Step::Reply((status, body, content_type)) => {
            (status.to_string(), body, content_type.to_string())
        }
        Step::Ask(call) => panic!("unexpected call {:?}", call),
    }
}

fn call(step: Step) -> StorageCall {
    match step {
        Step::Ask(call) => call,
        Step::Reply(triple) => panic!("unexpected reply {:?}", triple),
    }
}

fn json(status: &str, body: &str) -> (String, String, String) {
    (status.to_string(), body.to_string(), "application/json".to_string())
}

fn err<T>(message: &str) -> Answer<T> {
    Some(Err(message.to_string()))
}

fn check_view_route(
    handler: ViewHandler,
    query: &str,
    missing: &str,
    failure_prefix: &str,
    is_expected_call: fn(&StorageCall) -> bool,
) {
    let params = parse_query(query);
    assert_eq!(
        reply(handler(&parse_query("x=1"), None, None)),
        json("HTTP/1.1 400 BAD REQUEST", missing)
    );
    assert_eq!(
        reply(handler(&parse_query("x=1"), Some(Ok(3)), Some(Ok("[]".to_string())))),
        json("HTTP/1.1 400 BAD REQUEST", missing)
    );
    match call(handler(&params, None, None)) {
        StorageCall::UserIdFromToken { token } => assert_eq!(token, "tok"),
        other => panic!("unexpected call {:?}", other),
    }
    assert_eq!(
        reply(handler(&params, err("Query returned no rows"), None)),
        json("HTTP/1.1 401 UNAUTHORIZED", "{\"error\": \"Invalid token: Query returned no rows\"}")
    );
    assert!(is_expected_call(&call(handler(&params, Some(Ok(3)), None))));
    assert_eq!(
        reply(handler(&params, Some(Ok(3)), Some(Ok("[1, 2]".to_string())))),
        json("HTTP/1.1 200 OK", "[1, 2]")
    );
    assert_eq!(
        reply(handler(&params, Some(Ok(3)), err("disk full"))),
        json(
            "HTTP/1.1 500 INTERNAL SERVER ERROR",
            &format!("{{\"error\": \"{}disk full\"}}", failure_prefix)
        )
    );
}

#[test]
fn history_route_steps() {
    check_view_route(
        handle_history_route,
        "userid=tok",
        "{\"error\": \"Invalid or missing userid\"}",
        "",
        |call| matches!(call, StorageCall::HistoryData { user_id: 3 }),
    );
}

#[test]
fn workouts_per_week_route_steps() {
    check_view_route(
        handle_workouts_per_week_route,
        "userid=tok",
        "{\"error\": \"Invalid or missing userid\"}",
        "",
        |call| matches!(call, StorageCall::WorkoutsPerWeek { user_id: 3 }),
    );
}

#[test]
fn templates_route_steps() {
    check_view_route(
        handle_templates_route,
        "userid=tok",
        "{\"error\": \"Invalid or missing userid parameter\"}",
        "Failed to retrieve templates: ",
        |call| matches!(call, StorageCall::Templates { user_id: 3 }),
    );
}

#[test]
fn one_rep_max_route_steps() {
    check_view_route(
        handle_one_rep_max_route,
        "userid=tok&exercise_id=12",
        "{\"error\": \"Invalid or missing userid or exercise_id\"}",
        "",
        |call| matches!(call, StorageCall::OneRepMaxes { user_id: 3, exercise_id: 12 }),
    );
}

#[test]
fn previous_sets_route_steps() {
    check_view_route(
        handle_previous_sets_route,
        "exercise_id=+12&userid=tok",
        "{\"error\": \"Invalid or missing userid or exercise_id\"}",
        "",
        |call| matches!(call, StorageCall::PreviousSets { user_id: 3, exercise_id: 12 }),
    );
}

#[test]
fn exercise_id_must_be_a_number() {
    let missing = json(
        "HTTP/1.1 400 BAD REQUEST",
        "{\"error\": \"Invalid or missing userid or exercise_id\"}",
    );
    for query in [
        "userid=tok",
        "exercise_id=12",
        "userid=tok&exercise_id=",
        "userid=tok&exercise_id=twelve",
        "userid=tok&exercise_id=-1",
        "userid=tok&exercise_id=4294967296",
        "userid=tok&exercise_id=1.0",
        "userid=tok&exercise_id=12&exercise_id=x",
    ] {
        assert_eq!(reply(handle_one_rep_max_route(&parse_query(query), None, None)), missing, "{}", query);
        assert_eq!(reply(handle_previous_sets_route(&parse_query(query), None, None)), missing, "{}", query);
    }
    let largest = parse_query("userid=tok&exercise_id=4294967295");
    assert!(matches!(
        call(handle_one_rep_max_route(&largest, Some(Ok(1)), None)),
        StorageCall::OneRepMaxes { user_id: 1, exercise_id: 4294967295 }
    ));
}

#[test]
fn exercises_route_steps() {
    let params = parse_query("userid=tok");
    assert_eq!(
        reply(handle_exercises_route(&parse_query(""), None, None)),
        (
            "HTTP/1.1 400 BAD REQUEST".to_string(),
            "<html><body>400 BAD REQUEST: Invalid or missing userid</body></html>".to_string(),
            "text/html".to_string()
        )
    );
    assert!(matches!(
        call(handle_exercises_route(&params, None, None)),
        StorageCall::UserIdFromToken { .. }
    ));
    assert_eq!(
        reply(handle_exercises_route(&params, err("expired"), None)),
        json("HTTP/1.1 401 UNAUTHORIZED", "{\"error\": \"Invalid token: expired\"}")
    );
    assert!(matches!(
        call(handle_exercises_route(&params, Some(Ok(8)), None)),
        StorageCall::UserExercises { user_id: 8 }
    ));
    assert_eq!(
        reply(handle_exercises_route(&params, Some(Ok(8)), Some(Ok("[]".to_string())))),
        json("HTTP/1.1 200 OK", "[]")
    );
    assert_eq!(
        reply(handle_exercises_route(&params, Some(Ok(8)), err("disk full"))),
        (
            "HTTP/1.1 500 INTERNAL SERVER ERROR".to_string(),
            "<html><body>500 INTERNAL SERVER ERROR</body></html>".to_string(),
            "text/html".to_string()
        )
    );
}

fn workout() -> Workout {
    Workout {
        user_id: "tok".to_string(),
        start_time: "2024-03-13 10:00:00".to_string(),
        end_time: "2024-03-13 11:00:00".to_string(),
        exercises: vec![ExerciseRecord {
            exercise_id: 7,
            sets: vec![WorkoutSet { reps: 10, weight: 100_000 }],
        }],
        notes: String::new(),
    }
}

#[test]
fn workout_route_steps() {
    let params = parse_query("userid=tok");
    assert_eq!(
        reply(handle_workout_route(Body::Parsed(workout()), &parse_query("user=tok"), None, None)),
        json(
            "HTTP/1.1 400 BAD REQUEST",
            "{ \"error\": \"Invalid or missing userid\", \"success\": false }"
        )
    );
    assert!(matches!(
        call(handle_workout_route(Body::Invalid, &params, None, None)),
        StorageCall::UserIdFromToken { .. }
    ));
    assert_eq!(
        reply(handle_workout_route(Body::Parsed(workout()), &params, err("expired"), None)),
        json("HTTP/1.1 401 UNAUTHORIZED", "{\"error\": \"Invalid token: expired\"}")
    );
    assert_eq!(
        reply(handle_workout_route(Body::Invalid, &params, Some(Ok(4)), None)),
        json("HTTP/1.1 400 BAD REQUEST", "{\"error\": \"Invalid JSON format\"}")
    );
    assert_eq!(
        reply(handle_workout_route(Body::Unreadable, &params, Some(Ok(4)), None)),
        json("HTTP/1.1 400 BAD REQUEST", "{\"error\": \"Failed to read request body\"}")
    );
    match call(handle_workout_route(Body::Parsed(workout()), &params, Some(Ok(4)), None)) {
        StorageCall::SaveWorkout { workout, user_id } => {
            assert_eq!(user_id, 4);
            assert_eq!(workout.start_time, "2024-03-13 10:00:00");
            assert_eq!(workout.exercises.len(), 1);
            assert_eq!(workout.exercises[0].sets, vec![WorkoutSet { reps: 10, weight: 100_000 }]);
        }
        other => panic!("unexpected call {:?}", other),
    }
    assert_eq!(
        reply(handle_workout_route(Body::Parsed(workout()), &params, Some(Ok(4)), Some(Ok(1)))),
        json("HTTP/1.1 200 OK", "{ \"user_id\": 4, \"success\": true }")
    );
    assert_eq!(
        reply(handle_workout_route(Body::Parsed(workout()), &params, Some(Ok(4)), err("locked"))),
        json("HTTP/1.1 500 INTERNAL SERVER ERROR", "{\"error\": \"Failed to save workout\"}")
    );
}

fn exercise(name: &str, body_part: &str) -> Body<ExerciseRequest> {
    Body::Parsed(ExerciseRequest {
        user_id: "tok".to_string(),
        name: name.to_string(),
        body_part: body_part.to_string(),
    })
}

#[test]
fn add_exercise_route_steps() {
    let bench = || exercise("Bench Press", "Chest");
    assert_eq!(
        reply(handle_add_exercise_route(Body::Unreadable, None, None, None)),
        json("HTTP/1.1 400 BAD REQUEST", "{\"error\": \"Failed to read request body\"}")
    );
    assert_eq!(
        reply(handle_add_exercise_route(Body::Invalid, Some(Ok(1)), Some(Ok(1)), Some(Ok(1)))),
        json("HTTP/1.1 400 BAD REQUEST", "{\"error\": \"Invalid JSON format\"}")
    );
    for body in [exercise("", "Chest"), exercise("Bench Press", ""), exercise("", "")] {
        assert_eq!(
            reply(handle_add_exercise_route(body, None, None, None)),
            json("HTTP/1.1 400 BAD REQUEST", "{\"error\": \"Name and body_part are required\"}")
        );
    }
    match call(handle_add_exercise_route(bench(), None, None, None)) {
        StorageCall::UserIdFromToken { token } => assert_eq!(token, "tok"),
        other => panic!("unexpected call {:?}", other),
    }
    assert_eq!(
        reply(handle_add_exercise_route(bench(), err("expired"), None, None)),
        json("HTTP/1.1 401 UNAUTHORIZED", "{\"error\": \"Invalid token: expired\"}")
    );
    assert!(matches!(
        call(handle_add_exercise_route(bench(), Some(Ok(6)), None, None)),
        StorageCall::IsValidUser { user_id: 6 }
    ));
    assert_eq!(
        reply(handle_add_exercise_route(bench(), Some(Ok(6)), err("gone"), None)),
        json("HTTP/1.1 400 BAD REQUEST", "{\"error\": \"Invalid user_id\"}")
    );
    match call(handle_add_exercise_route(bench(), Some(Ok(6)), Some(Ok(6)), None)) {
        StorageCall::AddExercise { request } => {
            assert_eq!(request.user_id, "tok");
            assert_eq!(request.name, "Bench Press");
            assert_eq!(request.body_part, "Chest");
        }
        other => panic!("unexpected call {:?}", other),
    }
    assert_eq!(
        reply(handle_add_exercise_route(bench(), Some(Ok(6)), Some(Ok(6)), Some(Ok(31)))),
        json("HTTP/1.1 201 CREATED", "{\"exercise_id\": 31}")
    );
    assert_eq!(
        reply(handle_add_exercise_route(bench(), Some(Ok(6)), Some(Ok(6)), err("locked"))),
        json("HTTP/1.1 500 INTERNAL SERVER ERROR", "{\"error\": \"locked\"}")
    );
}

fn template(name: &str, exercises: Vec<TemplateExerciseRequest>) -> Body<TemplateRequest> {
    Body::Parsed(TemplateRequest { user_id: "tok".to_string(), name: name.to_string(), exercises })
}

#[test]
fn save_template_route_steps() {
    let push = || template("Push", vec![TemplateExerciseRequest { exercise_id: 7, sets: 3 }]);
    assert_eq!(
        reply(handle_save_template_route(Body::Unreadable, None, None, None)),
        json("HTTP/1.1 400 BAD REQUEST", "{\"error\": \"Failed to read request body\"}")
    );
    assert_eq!(
        reply(handle_save_template_route(Body::Invalid, None, None, None)),
        json("HTTP/1.1 400 BAD REQUEST", "{\"error\": \"Invalid JSON format\"}")
    );
    for body in [
        template("", vec![TemplateExerciseRequest { exercise_id: 7, sets: 3 }]),
        template("Push", Vec::new()),
    ] {
        assert_eq!(
            reply(handle_save_template_route(body, Some(Ok(1)), Some(Ok(1)), None)),
            json(
                "HTTP/1.1 400 BAD REQUEST",
                "{\"error\": \"Template name and exercises are required\"}"
            )
        );
    }
    match call(handle_save_template_route(push(), None, None, None)) {
        StorageCall::UserIdFromToken { token } => assert_eq!(token, "tok"),
        other => panic!("unexpected call {:?}", other),
    }
    assert_eq!(
        reply(handle_save_template_route(push(), err("expired"), None, None)),
        json("HTTP/1.1 401 UNAUTHORIZED", "{\"error\": \"Invalid token: expired\"}")
    );
    assert!(matches!(
        call(handle_save_template_route(push(), Some(Ok(6)), None, None)),
        StorageCall::IsValidUser { user_id: 6 }
    ));
    assert_eq!(
        reply(handle_save_template_route(push(), Some(Ok(6)), err("gone"), None)),
        json("HTTP/1.1 400 BAD REQUEST", "{\"error\": \"Invalid user_id\"}")
    );
    match call(handle_save_template_route(push(), Some(Ok(6)), Some(Ok(6)), None)) {
        StorageCall::SaveTemplate { template } => {
            assert_eq!(template.name, "Push");
            assert_eq!(template.exercises, vec![TemplateExerciseRequest { exercise_id: 7, sets: 3 }]);
        }
        other => panic!("unexpected call {:?}", other),
    }
    assert_eq!(
        reply(handle_save_template_route(push(), Some(Ok(6)), Some(Ok(6)), Some(Ok(2)))),
        json("HTTP/1.1 201 CREATED", "{\"template_id\": 2}")
    );
    assert_eq!(
        reply(handle_save_template_route(push(), Some(Ok(6)), Some(Ok(6)), err("locked"))),
        json(
            "HTTP/1.1 500 INTERNAL SERVER ERROR",
            "{\"error\": \"Failed to save template: locked\"}"
        )
    );
}

fn credentials(username: &str, password: &str) -> Body<Credentials> {
    Body::Parsed(Credentials {
        username: username.to_string(),
        password_hash: password.to_string(),
    })
}

#[test]
fn login_route_steps() {
    assert_eq!(
        reply(handle_login_route(Body::Unreadable, None)),
        json("HTTP/1.1 400 BAD REQUEST", "{\"error\": \"Failed to read request body\"}")
    );
    assert_eq!(
        reply(handle_login_route(Body::Invalid, None)),
        json("HTTP/1.1 400 BAD REQUEST", "{\"error\": \"Invalid JSON format\"}")
    );
    for body in [credentials("", "pw"), credentials("me", ""), credentials("", "")] {
        assert_eq!(
            reply(handle_login_route(body, None)),
            json(
                "HTTP/1.1 400 BAD REQUEST",
                "{\"error\": \"Username and password_hash are required\"}"
            )
        );
    }
    match call(handle_login_route(credentials("me", "pw"), None)) {
        StorageCall::Login { username, password } => {
            assert_eq!(username, "me");
            assert_eq!(password, "pw");
        }
        other => panic!("unexpected call {:?}", other),
    }
    assert_eq!(
        reply(handle_login_route(
            credentials("me", "pw"),
            Some(Ok("abcdefghijklmnopqrstuvwxyzabcdef".to_string()))
        )),
        json("HTTP/1.1 200 OK", "{\"session_token\": \"abcdefghijklmnopqrstuvwxyzabcdef\"}")
    );
    assert_eq!(
        reply(handle_login_route(credentials("me", "pw"), err("Query returned no rows"))),
        json("HTTP/1.1 401 UNAUTHORIZED", "{\"error\": \"Invalid username or password\"}")
    );
}

#[test]
fn register_route_steps() {
    assert_eq!(
        reply(handle_register_route(Body::Unreadable, None, None)),
        json("HTTP/1.1 400 BAD REQUEST", "{\"error\": \"Failed to read request body\"}")
    );
    assert_eq!(
        reply(handle_register_route(Body::Invalid, None, None)),
        json("HTTP/1.1 400 BAD REQUEST", "{\"error\": \"Invalid JSON format\"}")
    );
    for body in [credentials("", "pw"), credentials("me", "")] {
        assert_eq!(
            reply(handle_register_route(body, None, None)),
            json(
                "HTTP/1.1 400 BAD REQUEST",
                "{\"error\": \"Username and password_hash are required\"}"
            )
        );
    }
    match call(handle_register_route(credentials("me", "pw"), None, None)) {
        StorageCall::UsernameExists { username } => assert_eq!(username, "me"),
        other => panic!("unexpected call {:?}", other),
    }
    assert_eq!(
        reply(handle_register_route(credentials("me", "pw"), err("locked"), None)),
        json("HTTP/1.1 500 INTERNAL SERVER ERROR", "{\"error\": \"Database error\"}")
    );
    assert_eq!(
        reply(handle_register_route(credentials("me", "pw"), Some(Ok(true)), None)),
        json("HTTP/1.1 400 BAD REQUEST", "{\"error\": \"Username already exists\"}")
    );
    match call(handle_register_route(credentials("me", "pw"), Some(Ok(false)), None)) {
        StorageCall::RegisterUser { username, password } => {
            assert_eq!(username, "me");
            assert_eq!(password, "pw");
        }
        other => panic!("unexpected call {:?}", other),
    }
    assert_eq!(
        reply(handle_register_route(credentials("me", "pw"), Some(Ok(false)), Some(Ok(5)))),
        json("HTTP/1.1 201 CREATED", "{\"user_id\":5}")
    );
    assert_eq!(
        reply(handle_register_route(credentials("me", "pw"), Some(Ok(false)), err("locked"))),
        json("HTTP/1.1 500 INTERNAL SERVER ERROR", "{\"error\": \"Failed to register user\"}")
    );
}

fn register(names: &mut Vec<String>, username: &str) -> (String, String, String) {
    let mut taken: Answer<bool> = None;
    let mut registered: Answer<u32> = None;
    loop {
        match handle_register_route(credentials(username, "pw"), taken.clone(), registered.clone()) {
            Step::Ask(StorageCall::UsernameExists { username }) => {
                taken = Some(Ok(names.contains(&username)));
            }
            Step::Ask(StorageCall::RegisterUser { username, .. }) => {
                names.push(username);
                registered = Some(Ok(names.len() as u32));
            }
            Step::Ask(other) => panic!("unexpected call {:?}", other),
            Step::Reply((status, body, content_type)) => {
                return (status.to_string(), body, content_type.to_string());
            }
        }
    }
}

#[test]
fn registering_a_name_twice_fails_the_second_time() {
    let mut names = Vec::new();
    assert_eq!(register(&mut names, "testuser"), json("HTTP/1.1 201 CREATED", "{\"user_id\":1}"));
    assert_eq!(
        register(&mut names, "testuser"),
        json("HTTP/1.1 400 BAD REQUEST", "{\"error\": \"Username already exists\"}")
    );
    assert_eq!(register(&mut names, "other"), json("HTTP/1.1 201 CREATED", "{\"user_id\":2}"));
    assert_eq!(names, vec!["testuser", "other"]);
}

#[test]
fn metadata_upload_names_the_processed_video() {
    assert_eq!(
        handle_metadata_upload(Processing::Done { new_path: "processed/abcdefghij.mp4".to_string() }),
        Ok("/processed/abcdefghij.mp4".to_string())
    );
    assert_eq!(video_url("processed/x.mp4"), Some("/processed/x.mp4".to_string()));
    assert_eq!(video_url("x.mp4"), Some("/processed/x.mp4".to_string()));
    assert_eq!(video_url("processed/"), None);
}

#[test]
fn metadata_upload_reports_failures() {
    assert_eq!(
        handle_metadata_upload(Processing::TrackingFailed),
        Err((
            "HTTP/1.1 500 Internal Server Error",
            "{\"error\":\"Video processing failed\"}".to_string(),
            "application/json"
        ))
    );
    assert_eq!(
        handle_metadata_upload(Processing::EditFailed { message: "FFmpeg \"failed\"".to_string() }),
        Err((
            "HTTP/1.1 500 Internal Server Error",
            "{\"error\":\"Metadata editing failed: FFmpeg \\\"failed\\\"\"}".to_string(),
            "application/json"
        ))
    );
}
