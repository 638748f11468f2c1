//! The handlers behind the routes. A handler touches neither the socket
//! nor the store: it is told what the store has answered so far, and says
//! what to ask next or what to reply.

use vstd::prelude::*;
use vstd::string::*;
use crate::accounts::random_byte;
use crate::database_handler::{ExerciseRequest, TemplateRequest};
use crate::protocol::{lookup, QueryParams};
use crate::text::{chars_of, decimal, parse_unsigned, parse_unsigned_chars, push_decimal};
use crate::tracker::{file_name, file_name_of};
use crate::wt_types::Workout;

verus! {

/// What a handler asks of the storage engine. The handler is called
/// again with the answer.
#[derive(Debug)]
pub enum StorageCall {
    /// Resolve a session token to its user.
    UserIdFromToken { token: String },
    /// Check that a user exists.
    IsValidUser { user_id: u32 },
    /// Add an exercise to the catalogue of the user behind the request's
    /// token.
    AddExercise { request: ExerciseRequest },
    /// Read a user's catalogue, as JSON.
    UserExercises { user_id: u32 },
    /// Store a workout for a user.
    SaveWorkout { workout: Workout, user_id: u32 },
    /// Read a user's history, as JSON.
    HistoryData { user_id: u32 },
    /// Read a user's weekly workout counts, as JSON.
    WorkoutsPerWeek { user_id: u32 },
    /// Read the one-rep-max trend of an exercise, as JSON.
    OneRepMaxes { user_id: u32, exercise_id: u32 },
    /// Read the sets of the latest workout with an exercise, as JSON.
    PreviousSets { user_id: u32, exercise_id: u32 },
    /// Read a user's templates, as JSON.
    Templates { user_id: u32 },
    /// Store a template for the user behind the request's token.
    SaveTemplate { template: TemplateRequest },
    /// Ask whether a user name is taken.
    UsernameExists { username: String },
    /// Create an account.
    RegisterUser { username: String, password: String },
    /// Open a session.
    Login { username: String, password: String },
}

/// A storage call with its texts taken by their characters.
pub enum CallModel {
    UserIdFromToken { token: Seq<char> },
    IsValidUser { user_id: u32 },
    AddExercise { request: ExerciseRequest },
    UserExercises { user_id: u32 },
    SaveWorkout { workout: Workout, user_id: u32 },
    HistoryData { user_id: u32 },
    WorkoutsPerWeek { user_id: u32 },
    OneRepMaxes { user_id: u32, exercise_id: u32 },
    PreviousSets { user_id: u32, exercise_id: u32 },
    Templates { user_id: u32 },
    SaveTemplate { template: TemplateRequest },
    UsernameExists { username: Seq<char> },
    RegisterUser { username: Seq<char>, password: Seq<char> },
    Login { username: Seq<char>, password: Seq<char> },
}

impl View for StorageCall {
    type V = CallModel;

    open spec fn view(&self) -> CallModel {
        match *self {
            StorageCall::UserIdFromToken { token } => CallModel::UserIdFromToken { token: token@ },
            StorageCall::IsValidUser { user_id } => CallModel::IsValidUser { user_id },
            StorageCall::AddExercise { request } => CallModel::AddExercise { request },
            StorageCall::UserExercises { user_id } => CallModel::UserExercises { user_id },
            StorageCall::SaveWorkout { workout, user_id } => CallModel::SaveWorkout {
                workout,
                user_id,
            },
            StorageCall::HistoryData { user_id } => CallModel::HistoryData { user_id },
            StorageCall::WorkoutsPerWeek { user_id } => CallModel::WorkoutsPerWeek { user_id },
            StorageCall::OneRepMaxes { user_id, exercise_id } => CallModel::OneRepMaxes {
                user_id,
                exercise_id,
            },
            StorageCall::PreviousSets { user_id, exercise_id } => CallModel::PreviousSets {
                user_id,
                exercise_id,
            },
            StorageCall::Templates { user_id } => CallModel::Templates { user_id },
            StorageCall::SaveTemplate { template } => CallModel::SaveTemplate { template },
            StorageCall::UsernameExists { username } => CallModel::UsernameExists {
                username: username@,
            },
            StorageCall::RegisterUser { username, password } => CallModel::RegisterUser {
                username: username@,
                password: password@,
            },
            StorageCall::Login { username, password } => CallModel::Login {
                username: username@,
                password: password@,
            },
        }
    }
}

/// What a handler does next: it asks the storage engine, or it answers
/// with a status line, a body and a content type.
#[derive(Debug)]
pub enum Step {
    Ask(StorageCall),
    Reply((&'static str, String, &'static str)),
}

/// A step with its texts taken by their characters.
pub enum StepModel {
    Ask(CallModel),
    Reply(Seq<char>, Seq<char>, Seq<char>),
}

impl View for Step {
    type V = StepModel;

    open spec fn view(&self) -> StepModel {
        match *self {
            Step::Ask(call) => StepModel::Ask(call@),
            Step::Reply(triple) => StepModel::Reply(triple.0@, triple.1@, triple.2@),
        }
    }
}

/// The answer of the storage engine to a call, once it has been made:
/// what was asked for, or the engine's error message.
pub open spec fn answer_model<T>(answer: Option<Result<T, String>>) -> Option<
    Result<T, Seq<char>>,
> {
    match answer {
        None => None,
        Some(Ok(value)) => Some(Ok(value)),
        Some(Err(message)) => Some(Err(message@)),
    }
}

/// The answer to a call that reads a view: its JSON text, or the
/// engine's error message.
pub open spec fn text_model(answer: Option<Result<String, String>>) -> Option<
    Result<Seq<char>, Seq<char>>,
> {
    match answer {
        None => None,
        Some(Ok(value)) => Some(Ok(value@)),
        Some(Err(message)) => Some(Err(message@)),
    }
}

/// A JSON reply.
pub open spec fn json_reply(status: Seq<char>, body: Seq<char>) -> StepModel {
    StepModel::Reply(status, body, "application/json"@)
}

/// An HTML reply.
pub open spec fn html_reply(status: Seq<char>, body: Seq<char>) -> StepModel {
    StepModel::Reply(status, body, "text/html"@)
}

/// The JSON object that reports `detail` as an error, behind `prefix`.
pub open spec fn error_body(prefix: Seq<char>, detail: Seq<char>) -> Seq<char> {
    "{\"error\": \""@ + prefix + detail + "\"}"@
}

/// The reply to a token that the storage engine did not resolve.
pub open spec fn invalid_token(message: Seq<char>) -> StepModel {
    json_reply("HTTP/1.1 401 UNAUTHORIZED"@, error_body("Invalid token: "@, message))
}

/// The reply to a view that the storage engine could not read.
pub open spec fn fetch_failed(prefix: Seq<char>, message: Seq<char>) -> StepModel {
    json_reply("HTTP/1.1 500 INTERNAL SERVER ERROR"@, error_body(prefix, message))
}

/// The steps of a handler that reads a view for the user behind `token`:
/// resolve the token, read the view with `call`, and answer with its JSON.
/// A token that does not resolve gives 401, a view that cannot be read 500
/// with the engine's message behind `prefix`.
pub open spec fn view_steps(
    token: Seq<char>,
    user: Option<Result<u32, Seq<char>>>,
    data: Option<Result<Seq<char>, Seq<char>>>,
    call: spec_fn(u32) -> CallModel,
    prefix: Seq<char>,
) -> StepModel {
    match user {
        None => StepModel::Ask(CallModel::UserIdFromToken { token }),
        Some(Err(message)) => invalid_token(message),
        Some(Ok(user_id)) => match data {
            None => StepModel::Ask(call(user_id)),
            Some(Ok(json)) => json_reply("HTTP/1.1 200 OK"@, json),
            Some(Err(message)) => fetch_failed(prefix, message),
        },
    }
}

/// `{"error": "` + `prefix` + `detail` + `"}`.
fn error_json(prefix: &str, detail: &str) -> (body: String)
    ensures
        body@ == error_body(prefix@, detail@),
{
    let mut body = String::from_str("{\"error\": \"");
    body.append(prefix);
    body.append(detail);
    body.append("\"}");
    body
}

fn reply_json(status: &'static str, body: String) -> (step: Step)
    ensures
        step@ == json_reply(status@, body@),
{
    Step::Reply((status, body, "application/json"))
}

fn reply_html(status: &'static str, body: &str) -> (step: Step)
    ensures
        step@ == html_reply(status@, body@),
{
    Step::Reply((status, String::from_str(body), "text/html"))
}

/// The step for a token that is being resolved or did not resolve.
fn unresolved(token: &String, failure: Option<String>) -> (step: Step)
    ensures
        step@ == match failure {
            None => StepModel::Ask(CallModel::UserIdFromToken { token: token@ }),
            Some(message) => invalid_token(message@),
        },
{
    match failure {
        None => Step::Ask(StorageCall::UserIdFromToken { token: token.clone() }),
        Some(message) => reply_json(
            "HTTP/1.1 401 UNAUTHORIZED",
            error_json("Invalid token: ", message.as_str()),
        ),
    }
}

/// The step that answers with a view, or says that it could not be read.
fn fetched(data: Result<String, String>, prefix: &str) -> (step: Step)
    ensures
        step@ == match data {
            Ok(json) => json_reply("HTTP/1.1 200 OK"@, json@),
            Err(message) => fetch_failed(prefix@, message@),
        },
{
    match data {
        Ok(json) => reply_json("HTTP/1.1 200 OK", json),
        Err(message) => reply_json(
            "HTTP/1.1 500 INTERNAL SERVER ERROR",
            error_json(prefix, message.as_str()),
        ),
    }
}

/// The exercise that the query names: the value of `exercise_id` read as
/// an unsigned decimal that fits 32 bits.
pub open spec fn exercise_id_of(params: Seq<(Seq<char>, Seq<char>)>) -> Option<u32> {
    match lookup(params, "exercise_id"@) {
        Some(text) => match parse_unsigned(text, u32::MAX as nat) {
            Some(n) => Some(n as u32),
            None => None,
        },
        None => None,
    }
}

fn exercise_id_in(query_params: &QueryParams) -> (id: Option<u32>)
    ensures
        id == exercise_id_of(query_params@),
{
    match query_params.get("exercise_id") {
        Some(text) => {
            let cs = chars_of(text.as_str());
            match parse_unsigned_chars(cs.as_slice(), u32::MAX as u64) {
                Some(n) => Some(n as u32),
                None => None,
            }
        },
        None => None,
    }
}

/// The steps of the one-rep-max route.
pub open spec fn one_rep_max_steps(
    params: Seq<(Seq<char>, Seq<char>)>,
    user: Option<Result<u32, Seq<char>>>,
    data: Option<Result<Seq<char>, Seq<char>>>,
) -> StepModel {
    match (lookup(params, "userid"@), exercise_id_of(params)) {
        (Some(token), Some(exercise_id)) => view_steps(
            token,
            user,
            data,
            |user_id: u32| CallModel::OneRepMaxes { user_id, exercise_id },
            ""@,
        ),
        _ => json_reply(
            "HTTP/1.1 400 BAD REQUEST"@,
            "{\"error\": \"Invalid or missing userid or exercise_id\"}"@,
        ),
    }
}

/// `/one_rep_max`: the one-rep-max trend of the exercise `exercise_id`
/// for the user behind the token `userid`.
pub fn handle_one_rep_max_route(
    query_params: &QueryParams,
    user: Option<Result<u32, String>>,
    data: Option<Result<String, String>>,
) -> (step: Step)
    ensures
        step@ == one_rep_max_steps(query_params@, answer_model(user), text_model(data)),
{
    match (query_params.get("userid"), exercise_id_in(query_params)) {
        (Some(token), Some(exercise_id)) => match user {
            None => unresolved(token, None),
            Some(Err(message)) => unresolved(token, Some(message)),
            Some(Ok(user_id)) => match data {
                None => Step::Ask(StorageCall::OneRepMaxes { user_id, exercise_id }),
                Some(answer) => fetched(answer, ""),
            },
        },
        _ => reply_json(
            "HTTP/1.1 400 BAD REQUEST",
            String::from_str("{\"error\": \"Invalid or missing userid or exercise_id\"}"),
        ),
    }
}

/// The steps of the previous sets route.
pub open spec fn previous_sets_steps(
    params: Seq<(Seq<char>, Seq<char>)>,
    user: Option<Result<u32, Seq<char>>>,
    data: Option<Result<Seq<char>, Seq<char>>>,
) -> StepModel {
    match (lookup(params, "userid"@), exercise_id_of(params)) {
        (Some(token), Some(exercise_id)) => view_steps(
            token,
            user,
            data,
            |user_id: u32| CallModel::PreviousSets { user_id, exercise_id },
            ""@,
        ),
        _ => json_reply(
            "HTTP/1.1 400 BAD REQUEST"@,
            "{\"error\": \"Invalid or missing userid or exercise_id\"}"@,
        ),
    }
}

/// `/previous_sets`: the sets of the latest workout with the exercise `exercise_id`,
/// for the user behind the token `userid`.
pub fn handle_previous_sets_route(
    query_params: &QueryParams,
    user: Option<Result<u32, String>>,
    data: Option<Result<String, String>>,
) -> (step: Step)
    ensures
        step@ == previous_sets_steps(query_params@, answer_model(user), text_model(data)),
{
    match (query_params.get("userid"), exercise_id_in(query_params)) {
        (Some(token), Some(exercise_id)) => match user {
            None => unresolved(token, None),
            Some(Err(message)) => unresolved(token, Some(message)),
            Some(Ok(user_id)) => match data {
                None => Step::Ask(StorageCall::PreviousSets { user_id, exercise_id }),
                Some(answer) => fetched(answer, ""),
            },
        },
        _ => reply_json(
            "HTTP/1.1 400 BAD REQUEST",
            String::from_str("{\"error\": \"Invalid or missing userid or exercise_id\"}"),
        ),
    }
}

/// The steps of the workouts per week route.
pub open spec fn workouts_per_week_steps(
    params: Seq<(Seq<char>, Seq<char>)>,
    user: Option<Result<u32, Seq<char>>>,
    data: Option<Result<Seq<char>, Seq<char>>>,
) -> StepModel {
    match lookup(params, "userid"@) {
        Some(token) => view_steps(
            token,
            user,
            data,
            |user_id: u32| CallModel::WorkoutsPerWeek { user_id },
            ""@,
        ),
        None => json_reply(
            "HTTP/1.1 400 BAD REQUEST"@,
            "{\"error\": \"Invalid or missing userid\"}"@,
        ),
    }
}

/// `/workouts_per_week`: the weekly workout counts of the user behind the
/// token `userid`.
pub fn handle_workouts_per_week_route(
    query_params: &QueryParams,
    user: Option<Result<u32, String>>,
    data: Option<Result<String, String>>,
) -> (step: Step)
    ensures
        step@ == workouts_per_week_steps(query_params@, answer_model(user), text_model(data)),
{
    match query_params.get("userid") {
        Some(token) => match user {
            None => unresolved(token, None),
            Some(Err(message)) => unresolved(token, Some(message)),
            Some(Ok(user_id)) => match data {
                None => Step::Ask(StorageCall::WorkoutsPerWeek { user_id }),
                Some(answer) => fetched(answer, ""),
            },
        },
        None => reply_json(
            "HTTP/1.1 400 BAD REQUEST",
            String::from_str("{\"error\": \"Invalid or missing userid\"}"),
        ),
    }
}

/// The steps of the history route.
pub open spec fn history_steps(
    params: Seq<(Seq<char>, Seq<char>)>,
    user: Option<Result<u32, Seq<char>>>,
    data: Option<Result<Seq<char>, Seq<char>>>,
) -> StepModel {
    match lookup(params, "userid"@) {
        Some(token) => view_steps(
            token,
            user,
            data,
            |user_id: u32| CallModel::HistoryData { user_id },
            ""@,
        ),
        None => json_reply(
            "HTTP/1.1 400 BAD REQUEST"@,
            "{\"error\": \"Invalid or missing userid\"}"@,
        ),
    }
}

/// `/history`: the history of the user behind the token `userid`.
pub fn handle_history_route(
    query_params: &QueryParams,
    user: Option<Result<u32, String>>,
    data: Option<Result<String, String>>,
) -> (step: Step)
    ensures
        step@ == history_steps(query_params@, answer_model(user), text_model(data)),
{
    match query_params.get("userid") {
        Some(token) => match user {
            None => unresolved(token, None),
            Some(Err(message)) => unresolved(token, Some(message)),
            Some(Ok(user_id)) => match data {
                None => Step::Ask(StorageCall::HistoryData { user_id }),
                Some(answer) => fetched(answer, ""),
            },
        },
        None => reply_json(
            "HTTP/1.1 400 BAD REQUEST",
            String::from_str("{\"error\": \"Invalid or missing userid\"}"),
        ),
    }
}

/// The steps of the templates route.
pub open spec fn templates_steps(
    params: Seq<(Seq<char>, Seq<char>)>,
    user: Option<Result<u32, Seq<char>>>,
    data: Option<Result<Seq<char>, Seq<char>>>,
) -> StepModel {
    match lookup(params, "userid"@) {
        Some(token) => view_steps(
            token,
            user,
            data,
            |user_id: u32| CallModel::Templates { user_id },
            "Failed to retrieve templates: "@,
        ),
        None => json_reply(
            "HTTP/1.1 400 BAD REQUEST"@,
            "{\"error\": \"Invalid or missing userid parameter\"}"@,
        ),
    }
}

/// `/templates`: the templates of the user behind the token `userid`.
pub fn handle_templates_route(
    query_params: &QueryParams,
    user: Option<Result<u32, String>>,
    data: Option<Result<String, String>>,
) -> (step: Step)
    ensures
        step@ == templates_steps(query_params@, answer_model(user), text_model(data)),
{
    match query_params.get("userid") {
        Some(token) => match user {
            None => unresolved(token, None),
            Some(Err(message)) => unresolved(token, Some(message)),
            Some(Ok(user_id)) => match data {
                None => Step::Ask(StorageCall::Templates { user_id }),
                Some(answer) => fetched(answer, "Failed to retrieve templates: "),
            },
        },
        None => reply_json(
            "HTTP/1.1 400 BAD REQUEST",
            String::from_str("{\"error\": \"Invalid or missing userid parameter\"}"),
        ),
    }
}

/// The steps of the exercises route. Its replies to a missing token and
/// to a catalogue that cannot be read are HTML, and the latter does not
/// pass the engine's message on.
pub open spec fn exercises_steps(
    params: Seq<(Seq<char>, Seq<char>)>,
    user: Option<Result<u32, Seq<char>>>,
    data: Option<Result<Seq<char>, Seq<char>>>,
) -> StepModel {
    match lookup(params, "userid"@) {
        Some(token) => match user {
            None => StepModel::Ask(CallModel::UserIdFromToken { token }),
            Some(Err(message)) => invalid_token(message),
            Some(Ok(user_id)) => match data {
                None => StepModel::Ask(CallModel::UserExercises { user_id }),
                Some(Ok(json)) => json_reply("HTTP/1.1 200 OK"@, json),
                Some(Err(_)) => html_reply(
                    "HTTP/1.1 500 INTERNAL SERVER ERROR"@,
                    "<html><body>500 INTERNAL SERVER ERROR</body></html>"@,
                ),
            },
        },
        None => html_reply(
            "HTTP/1.1 400 BAD REQUEST"@,
            "<html><body>400 BAD REQUEST: Invalid or missing userid</body></html>"@,
        ),
    }
}

/// `/exercises`: the catalogue of the user behind the token `userid`,
/// each entry with its best set.
pub fn handle_exercises_route(
    query_params: &QueryParams,
    user: Option<Result<u32, String>>,
    data: Option<Result<String, String>>,
) -> (step: Step)
    ensures
        step@ == exercises_steps(query_params@, answer_model(user), text_model(data)),
{
    match query_params.get("userid") {
        Some(token) => match user {
            None => unresolved(token, None),
            Some(Err(message)) => unresolved(token, Some(message)),
            Some(Ok(user_id)) => match data {
                None => Step::Ask(StorageCall::UserExercises { user_id }),
                Some(Ok(json)) => reply_json("HTTP/1.1 200 OK", json),
                Some(Err(_)) => reply_html(
                    "HTTP/1.1 500 INTERNAL SERVER ERROR",
                    "<html><body>500 INTERNAL SERVER ERROR</body></html>",
                ),
            },
        },
        None => reply_html(
            "HTTP/1.1 400 BAD REQUEST",
            "<html><body>400 BAD REQUEST: Invalid or missing userid</body></html>",
        ),
    }
}

/// The body of a request as far as it could be read.
#[derive(Debug)]
pub enum Body<T> {
    /// The bytes could not be read as text.
    Unreadable,
    /// The text is not the JSON that the route expects.
    Invalid,
    /// The value that the JSON holds.
    Parsed(T),
}

/// The body of a login or a registration.
#[derive(Debug)]
pub struct Credentials {
    pub username: String,
    pub password_hash: String,
}

/// The reply to a body that could not be read.
pub open spec fn unreadable_body() -> StepModel {
    json_reply("HTTP/1.1 400 BAD REQUEST"@, "{\"error\": \"Failed to read request body\"}"@)
}

/// The reply to a body that is not the expected JSON.
pub open spec fn invalid_body() -> StepModel {
    json_reply("HTTP/1.1 400 BAD REQUEST"@, "{\"error\": \"Invalid JSON format\"}"@)
}

fn reject_unreadable() -> (step: Step)
    ensures
        step@ == unreadable_body(),
{
    reply_json(
        "HTTP/1.1 400 BAD REQUEST",
        String::from_str("{\"error\": \"Failed to read request body\"}"),
    )
}

fn reject_invalid() -> (step: Step)
    ensures
        step@ == invalid_body(),
{
    reply_json("HTTP/1.1 400 BAD REQUEST", String::from_str("{\"error\": \"Invalid JSON format\"}"))
}

/// `prefix`, the numeral of `n`, `suffix`.
fn around_number(prefix: &str, n: u32, suffix: &str) -> (text: String)
    ensures
        text@ == prefix@ + decimal(n as nat) + suffix@,
{
    let mut text = String::from_str(prefix);
    push_decimal(&mut text, n as u64);
    text.append(suffix);
    text
}

/// The steps of the workout route. The token is looked at before the
/// body.
pub open spec fn workout_steps(
    body: Body<Workout>,
    params: Seq<(Seq<char>, Seq<char>)>,
    user: Option<Result<u32, Seq<char>>>,
    saved: Option<Result<u32, Seq<char>>>,
) -> StepModel {
    match lookup(params, "userid"@) {
        None => json_reply(
            "HTTP/1.1 400 BAD REQUEST"@,
            "{ \"error\": \"Invalid or missing userid\", \"success\": false }"@,
        ),
        Some(token) => match user {
            None => StepModel::Ask(CallModel::UserIdFromToken { token }),
            Some(Err(message)) => invalid_token(message),
            Some(Ok(user_id)) => match body {
                Body::Unreadable => unreadable_body(),
                Body::Invalid => invalid_body(),
                Body::Parsed(workout) => match saved {
                    None => StepModel::Ask(CallModel::SaveWorkout { workout, user_id }),
                    Some(Ok(_)) => json_reply(
                        "HTTP/1.1 200 OK"@,
                        "{ \"user_id\": "@ + decimal(user_id as nat) + ", \"success\": true }"@,
                    ),
                    Some(Err(_)) => json_reply(
                        "HTTP/1.1 500 INTERNAL SERVER ERROR"@,
                        "{\"error\": \"Failed to save workout\"}"@,
                    ),
                },
            },
        },
    }
}

/// `/workout`: stores the workout in the body for the user behind the
/// token `userid`.
pub fn handle_workout_route(
    body: Body<Workout>,
    query_params: &QueryParams,
    user: Option<Result<u32, String>>,
    saved: Option<Result<u32, String>>,
) -> (step: Step)
    ensures
        step@ == workout_steps(body, query_params@, answer_model(user), answer_model(saved)),
{
    match query_params.get("userid") {
        None => reply_json(
            "HTTP/1.1 400 BAD REQUEST",
            String::from_str("{ \"error\": \"Invalid or missing userid\", \"success\": false }"),
        ),
        Some(token) => match user {
            None => unresolved(token, None),
            Some(Err(message)) => unresolved(token, Some(message)),
            Some(Ok(user_id)) => match body {
                Body::Unreadable => reject_unreadable(),
                Body::Invalid => reject_invalid(),
                Body::Parsed(workout) => match saved {
                    None => Step::Ask(StorageCall::SaveWorkout { workout, user_id }),
                    Some(Ok(_)) => reply_json(
                        "HTTP/1.1 200 OK",
                        around_number("{ \"user_id\": ", user_id, ", \"success\": true }"),
                    ),
                    Some(Err(_)) => reply_json(
                        "HTTP/1.1 500 INTERNAL SERVER ERROR",
                        String::from_str("{\"error\": \"Failed to save workout\"}"),
                    ),
                },
            },
        },
    }
}

/// The steps of the route that adds an exercise.
pub open spec fn add_exercise_steps(
    body: Body<ExerciseRequest>,
    user: Option<Result<u32, Seq<char>>>,
    valid: Option<Result<u32, Seq<char>>>,
    added: Option<Result<u32, Seq<char>>>,
) -> StepModel {
    match body {
        Body::Unreadable => unreadable_body(),
        Body::Invalid => invalid_body(),
        Body::Parsed(request) => if request.name@.len() == 0 || request.body_part@.len() == 0 {
            json_reply(
                "HTTP/1.1 400 BAD REQUEST"@,
                "{\"error\": \"Name and body_part are required\"}"@,
            )
        } else {
            match user {
                None => StepModel::Ask(CallModel::UserIdFromToken { token: request.user_id@ }),
                Some(Err(message)) => invalid_token(message),
                Some(Ok(user_id)) => match valid {
                    None => StepModel::Ask(CallModel::IsValidUser { user_id }),
                    Some(Err(_)) => json_reply(
                        "HTTP/1.1 400 BAD REQUEST"@,
                        "{\"error\": \"Invalid user_id\"}"@,
                    ),
                    Some(Ok(_)) => match added {
                        None => StepModel::Ask(CallModel::AddExercise { request }),
                        Some(Ok(exercise_id)) => json_reply(
                            "HTTP/1.1 201 CREATED"@,
                            "{\"exercise_id\": "@ + decimal(exercise_id as nat) + "}"@,
                        ),
                        Some(Err(message)) => fetch_failed(""@, message),
                    },
                },
            }
        },
    }
}

/// `/add_exercise`: adds the exercise in the body to the catalogue of the
/// user behind the body's token.
pub fn handle_add_exercise_route(
    body: Body<ExerciseRequest>,
    user: Option<Result<u32, String>>,
    valid: Option<Result<u32, String>>,
    added: Option<Result<u32, String>>,
) -> (step: Step)
    ensures
        step@ == add_exercise_steps(
            body,
            answer_model(user),
            answer_model(valid),
            answer_model(added),
        ),
{
    let request = match body {
        Body::Unreadable => {
            return reject_unreadable();
        },
        Body::Invalid => {
            return reject_invalid();
        },
        Body::Parsed(request) => request,
    };
    if request.name.as_str().is_empty() || request.body_part.as_str().is_empty() {
        return reply_json(
            "HTTP/1.1 400 BAD REQUEST",
            String::from_str("{\"error\": \"Name and body_part are required\"}"),
        );
    }
    match user {
        None => unresolved(&request.user_id, None),
        Some(Err(message)) => unresolved(&request.user_id, Some(message)),
        Some(Ok(user_id)) => match valid {
            None => Step::Ask(StorageCall::IsValidUser { user_id }),
            Some(Err(_)) => reply_json(
                "HTTP/1.1 400 BAD REQUEST",
                String::from_str("{\"error\": \"Invalid user_id\"}"),
            ),
            Some(Ok(_)) => match added {
                None => Step::Ask(StorageCall::AddExercise { request }),
                Some(Ok(exercise_id)) => reply_json(
                    "HTTP/1.1 201 CREATED",
                    around_number("{\"exercise_id\": ", exercise_id, "}"),
                ),
                Some(Err(message)) => reply_json(
                    "HTTP/1.1 500 INTERNAL SERVER ERROR",
                    error_json("", message.as_str()),
                ),
            },
        },
    }
}

/// The steps of the route that saves a template.
pub open spec fn save_template_steps(
    body: Body<TemplateRequest>,
    user: Option<Result<u32, Seq<char>>>,
    valid: Option<Result<u32, Seq<char>>>,
    saved: Option<Result<u32, Seq<char>>>,
) -> StepModel {
    match body {
        Body::Unreadable => unreadable_body(),
        Body::Invalid => invalid_body(),
        Body::Parsed(template) => if template.name@.len() == 0 || template.exercises@.len() == 0 {
            json_reply(
                "HTTP/1.1 400 BAD REQUEST"@,
                "{\"error\": \"Template name and exercises are required\"}"@,
            )
        } else {
            match user {
                None => StepModel::Ask(CallModel::UserIdFromToken { token: template.user_id@ }),
                Some(Err(message)) => invalid_token(message),
                Some(Ok(user_id)) => match valid {
                    None => StepModel::Ask(CallModel::IsValidUser { user_id }),
                    Some(Err(_)) => json_reply(
                        "HTTP/1.1 400 BAD REQUEST"@,
                        "{\"error\": \"Invalid user_id\"}"@,
                    ),
                    Some(Ok(_)) => match saved {
                        None => StepModel::Ask(CallModel::SaveTemplate { template }),
                        Some(Ok(template_id)) => json_reply(
                            "HTTP/1.1 201 CREATED"@,
                            "{\"template_id\": "@ + decimal(template_id as nat) + "}"@,
                        ),
                        Some(Err(message)) => fetch_failed("Failed to save template: "@, message),
                    },
                },
            }
        },
    }
}

/// `/save_template`: stores the template in the body for the user behind
/// the body's token.
pub fn handle_save_template_route(
    body: Body<TemplateRequest>,
    user: Option<Result<u32, String>>,
    valid: Option<Result<u32, String>>,
    saved: Option<Result<u32, String>>,
) -> (step: Step)
    ensures
        step@ == save_template_steps(
            body,
            answer_model(user),
            answer_model(valid),
            answer_model(saved),
        ),
{
    let template = match body {
        Body::Unreadable => {
            return reject_unreadable();
        },
        Body::Invalid => {
            return reject_invalid();
        },
        Body::Parsed(template) => template,
    };
    if template.name.as_str().is_empty() || template.exercises.len() == 0 {
        return reply_json(
            "HTTP/1.1 400 BAD REQUEST",
            String::from_str("{\"error\": \"Template name and exercises are required\"}"),
        );
    }
    match user {
        None => unresolved(&template.user_id, None),
        Some(Err(message)) => unresolved(&template.user_id, Some(message)),
        Some(Ok(user_id)) => match valid {
            None => Step::Ask(StorageCall::IsValidUser { user_id }),
            Some(Err(_)) => reply_json(
                "HTTP/1.1 400 BAD REQUEST",
                String::from_str("{\"error\": \"Invalid user_id\"}"),
            ),
            Some(Ok(_)) => match saved {
                None => Step::Ask(StorageCall::SaveTemplate { template }),
                Some(Ok(template_id)) => reply_json(
                    "HTTP/1.1 201 CREATED",
                    around_number("{\"template_id\": ", template_id, "}"),
                ),
                Some(Err(message)) => reply_json(
                    "HTTP/1.1 500 INTERNAL SERVER ERROR",
                    error_json("Failed to save template: ", message.as_str()),
                ),
            },
        },
    }
}

/// The reply to credentials of which one is empty.
pub open spec fn missing_credentials() -> StepModel {
    json_reply(
        "HTTP/1.1 400 BAD REQUEST"@,
        "{\"error\": \"Username and password_hash are required\"}"@,
    )
}

/// The steps of the login route.
pub open spec fn login_steps(body: Body<Credentials>, session: Option<Result<Seq<char>, Seq<char>>>)
    -> StepModel {
    match body {
        Body::Unreadable => unreadable_body(),
        Body::Invalid => invalid_body(),
        Body::Parsed(credentials) => if credentials.username@.len() == 0
            || credentials.password_hash@.len() == 0 {
            missing_credentials()
        } else {
            match session {
                None => StepModel::Ask(
                    CallModel::Login {
                        username: credentials.username@,
                        password: credentials.password_hash@,
                    },
                ),
                Some(Ok(token)) => json_reply(
                    "HTTP/1.1 200 OK"@,
                    "{\"session_token\": \""@ + token + "\"}"@,
                ),
                Some(Err(_)) => json_reply(
                    "HTTP/1.1 401 UNAUTHORIZED"@,
                    "{\"error\": \"Invalid username or password\"}"@,
                ),
            }
        },
    }
}

/// `/login`: opens a session for the user whose name and password the
/// body holds, and answers with the session's token.
pub fn handle_login_route(
    body: Body<Credentials>,
    session: Option<Result<String, String>>,
) -> (step: Step)
    ensures
        step@ == login_steps(body, text_model(session)),
{
    let credentials = match body {
        Body::Unreadable => {
            return reject_unreadable();
        },
        Body::Invalid => {
            return reject_invalid();
        },
        Body::Parsed(credentials) => credentials,
    };
    if credentials.username.as_str().is_empty() || credentials.password_hash.as_str().is_empty() {
        return reply_json(
            "HTTP/1.1 400 BAD REQUEST",
            String::from_str("{\"error\": \"Username and password_hash are required\"}"),
        );
    }
    match session {
        None => Step::Ask(
            StorageCall::Login {
                username: credentials.username,
                password: credentials.password_hash,
            },
        ),
        Some(Ok(token)) => {
            let mut text = String::from_str("{\"session_token\": \"");
            text.append(token.as_str());
            text.append("\"}");
            reply_json("HTTP/1.1 200 OK", text)
        },
        Some(Err(_)) => reply_json(
            "HTTP/1.1 401 UNAUTHORIZED",
            String::from_str("{\"error\": \"Invalid username or password\"}"),
        ),
    }
}

/// The text that `serde_json` writes for the object with the one member
/// `key`, whose value is the number `value`.
pub uninterp spec fn json_number_member(key: Seq<char>, value: u32) -> Seq<char>;

/// `serde_json::Map::insert` of a number under `key` into an empty map,
/// and `to_string` of the object: its compact JSON text.
#[verifier::external_body]
fn json_with_number(key: &str, value: u32) -> (text: String)
    ensures
        text@ == json_number_member(key@, value),
{
    let mut members = serde_json::Map::new();
    members.insert(key.to_string(), serde_json::Value::from(value));
    serde_json::Value::Object(members).to_string()
}

/// The steps of the registration route. A name that is taken is refused
/// before anything is stored.
pub open spec fn register_steps(
    body: Body<Credentials>,
    taken: Option<Result<bool, Seq<char>>>,
    registered: Option<Result<u32, Seq<char>>>,
) -> StepModel {
    match body {
        Body::Unreadable => unreadable_body(),
        Body::Invalid => invalid_body(),
        Body::Parsed(credentials) => if credentials.username@.len() == 0
            || credentials.password_hash@.len() == 0 {
            missing_credentials()
        } else {
            match taken {
                None => StepModel::Ask(
                    CallModel::UsernameExists { username: credentials.username@ },
                ),
                Some(Err(_)) => json_reply(
                    "HTTP/1.1 500 INTERNAL SERVER ERROR"@,
                    "{\"error\": \"Database error\"}"@,
                ),
                Some(Ok(true)) => json_reply(
                    "HTTP/1.1 400 BAD REQUEST"@,
                    "{\"error\": \"Username already exists\"}"@,
                ),
                Some(Ok(false)) => match registered {
                    None => StepModel::Ask(
                        CallModel::RegisterUser {
                            username: credentials.username@,
                            password: credentials.password_hash@,
                        },
                    ),
                    Some(Ok(user_id)) => json_reply(
                        "HTTP/1.1 201 CREATED"@,
                        json_number_member("user_id"@, user_id),
                    ),
                    Some(Err(_)) => json_reply(
                        "HTTP/1.1 500 INTERNAL SERVER ERROR"@,
                        "{\"error\": \"Failed to register user\"}"@,
                    ),
                },
            }
        },
    }
}

/// `/register`: creates an account for the name and password in the
/// body, unless the name is taken.
pub fn handle_register_route(
    body: Body<Credentials>,
    taken: Option<Result<bool, String>>,
    registered: Option<Result<u32, String>>,
) -> (step: Step)
    ensures
        step@ == register_steps(body, answer_model(taken), answer_model(registered)),
{
    let credentials = match body {
        Body::Unreadable => {
            return reject_unreadable();
        },
        Body::Invalid => {
            return reject_invalid();
        },
        Body::Parsed(credentials) => credentials,
    };
    if credentials.username.as_str().is_empty() || credentials.password_hash.as_str().is_empty() {
        return reply_json(
            "HTTP/1.1 400 BAD REQUEST",
            String::from_str("{\"error\": \"Username and password_hash are required\"}"),
        );
    }
    match taken {
        None => Step::Ask(StorageCall::UsernameExists { username: credentials.username }),
        Some(Err(_)) => reply_json(
            "HTTP/1.1 500 INTERNAL SERVER ERROR",
            String::from_str("{\"error\": \"Database error\"}"),
        ),
        Some(Ok(true)) => reply_json(
            "HTTP/1.1 400 BAD REQUEST",
            String::from_str("{\"error\": \"Username already exists\"}"),
        ),
        Some(Ok(false)) => match registered {
            None => Step::Ask(
                StorageCall::RegisterUser {
                    username: credentials.username,
                    password: credentials.password_hash,
                },
            ),
            Some(Ok(user_id)) => reply_json(
                "HTTP/1.1 201 CREATED",
                json_with_number("user_id", user_id),
            ),
            Some(Err(_)) => reply_json(
                "HTTP/1.1 500 INTERNAL SERVER ERROR",
                String::from_str("{\"error\": \"Failed to register user\"}"),
            ),
        },
    }
}

/// A handler that reads a view replies once the store has answered both
/// of its calls: it asks at most twice.
pub proof fn lemma_view_routes_reply(
    params: Seq<(Seq<char>, Seq<char>)>,
    user: Option<Result<u32, Seq<char>>>,
    data: Option<Result<Seq<char>, Seq<char>>>,
)
    requires
        user is Some,
        data is Some,
    ensures
        one_rep_max_steps(params, user, data) is Reply,
        previous_sets_steps(params, user, data) is Reply,
        workouts_per_week_steps(params, user, data) is Reply,
        history_steps(params, user, data) is Reply,
        templates_steps(params, user, data) is Reply,
        exercises_steps(params, user, data) is Reply,
{
}

/// A handler that writes to the store replies once the store has answered
/// all of its calls: it asks at most three times.
pub proof fn lemma_writing_routes_reply(
    workout: Body<Workout>,
    exercise: Body<ExerciseRequest>,
    template: Body<TemplateRequest>,
    credentials: Body<Credentials>,
    params: Seq<(Seq<char>, Seq<char>)>,
    user: Option<Result<u32, Seq<char>>>,
    valid: Option<Result<u32, Seq<char>>>,
    stored: Option<Result<u32, Seq<char>>>,
    session: Option<Result<Seq<char>, Seq<char>>>,
    taken: Option<Result<bool, Seq<char>>>,
)
    requires
        user is Some,
        valid is Some,
        stored is Some,
        session is Some,
        taken is Some,
    ensures
        workout_steps(workout, params, user, stored) is Reply,
        add_exercise_steps(exercise, user, valid, stored) is Reply,
        save_template_steps(template, user, valid, stored) is Reply,
        login_steps(credentials, session) is Reply,
        register_steps(credentials, taken, stored) is Reply,
{
}

/// The names that a store holds after a registration has run its course
/// against it, and the reply of the registration. The store holds the
/// names `names` before; it says truly whether a name is taken, and it
/// registers a name by adding it, under the id `id`.
pub open spec fn registration(names: Seq<Seq<char>>, credentials: Credentials, id: u32) -> (
    Seq<Seq<char>>,
    StepModel,
) {
    let body = Body::Parsed(credentials);
    match register_steps(body, None, None) {
        StepModel::Ask(CallModel::UsernameExists { username }) => {
            let taken = Some(Ok::<bool, Seq<char>>(names.contains(username)));
            match register_steps(body, taken, None) {
                StepModel::Ask(CallModel::RegisterUser { username, password }) => (
                    names.push(username),
                    register_steps(body, taken, Some(Ok(id))),
                ),
                reply => (names, reply),
            }
        },
        reply => (names, reply),
    }
}

/// Whoever registers a name that has been registered before is told that
/// the name exists, and nothing is stored.
pub proof fn lemma_second_registration_is_refused(
    names: Seq<Seq<char>>,
    first: Credentials,
    second: Credentials,
    first_id: u32,
    second_id: u32,
)
    requires
        first.username@.len() > 0,
        first.password_hash@.len() > 0,
        second.username@ == first.username@,
        second.password_hash@.len() > 0,
    ensures
        registration(registration(names, first, first_id).0, second, second_id).1 == json_reply(
            "HTTP/1.1 400 BAD REQUEST"@,
            "{\"error\": \"Username already exists\"}"@,
        ),
        registration(registration(names, first, first_id).0, second, second_id).0 == registration(
            names,
            first,
            first_id,
        ).0,
{
    let after = registration(names, first, first_id).0;
    if names.contains(first.username@) {
        assert(after == names);
    } else {
        assert(after == names.push(first.username@));
        assert(after[after.len() - 1] == first.username@);
    }
    assert(after.contains(second.username@));
}

/// A registration is refused once the name is known to be taken, whatever
/// else the request holds: nothing is asked of the store any more.
pub proof fn lemma_taken_name_is_refused(
    credentials: Credentials,
    registered: Option<Result<u32, Seq<char>>>,
)
    requires
        credentials.username@.len() > 0,
        credentials.password_hash@.len() > 0,
    ensures
        register_steps(Body::Parsed(credentials), Some(Ok(true)), registered) == json_reply(
            "HTTP/1.1 400 BAD REQUEST"@,
            "{\"error\": \"Username already exists\"}"@,
        ),
{
}

/// The catalogue entry that a client is sent for a stored one. An entry
/// without a best set is sent with an empty one.
pub fn convert_db_exercise(db_ex: &crate::database_handler::Exercise) -> (entry:
    crate::wt_types::Exercise)
    ensures
        entry.id == db_ex.id,
        entry.name@ == db_ex.name@,
        entry.body_part@ == db_ex.muscle_group@,
        entry.best_set@ == match db_ex.best_set {
            Some(text) => text@,
            None => Seq::<char>::empty(),
        },
{
    let best_set = match &db_ex.best_set {
        Some(text) => text.clone(),
        None => String::new(),
    };
    crate::wt_types::Exercise {
        id: db_ex.id,
        name: db_ex.name.clone(),
        body_part: db_ex.muscle_group.clone(),
        best_set,
    }
}

/// Converts a catalogue, entry by entry.
pub fn convert_db_exercises(db_exercises: &Vec<crate::database_handler::Exercise>) -> (entries: Vec<
    crate::wt_types::Exercise,
>)
    ensures
        entries@.len() == db_exercises@.len(),
        forall|i: int|
            0 <= i < entries@.len() ==> {
                &&& (#[trigger] entries@[i]).id == db_exercises@[i].id
                &&& entries@[i].name@ == db_exercises@[i].name@
                &&& entries@[i].body_part@ == db_exercises@[i].muscle_group@
                &&& entries@[i].best_set@ == match db_exercises@[i].best_set {
                    Some(text) => text@,
                    None => Seq::<char>::empty(),
                }
            },
{
    let mut entries: Vec<crate::wt_types::Exercise> = Vec::new();
    let mut i: usize = 0;
    while i < db_exercises.len()
        invariant
            i <= db_exercises@.len(),
            entries@.len() == i,
            forall|j: int|
                0 <= j < i ==> {
                    &&& (#[trigger] entries@[j]).id == db_exercises@[j].id
                    &&& entries@[j].name@ == db_exercises@[j].name@
                    &&& entries@[j].body_part@ == db_exercises@[j].muscle_group@
                    &&& entries@[j].best_set@ == match db_exercises@[j].best_set {
                        Some(text) => text@,
                        None => Seq::<char>::empty(),
                    }
                },
        decreases db_exercises@.len() - i,
    {
        entries.push(convert_db_exercise(&db_exercises[i]));
        i += 1;
    }
    entries
}

/// The reply to a path that names no route.
pub fn not_found() -> (reply: (&'static str, String, &'static str))
    ensures
        reply.0@ == "HTTP/1.1 404 NOT FOUND"@,
        reply.1@ == "<html><body>404 NOT FOUND</body></html>"@,
        reply.2@ == "text/html"@,
{
    (
        "HTTP/1.1 404 NOT FOUND",
        String::from_str("<html><body>404 NOT FOUND</body></html>"),
        "text/html",
    )
}

/// The reply to a video upload that names no content type.
pub fn missing_content_type() -> (reply: (&'static str, String, &'static str))
    ensures
        reply.0@ == "HTTP/1.1 400 BAD REQUEST"@,
        reply.1@ == "Missing Content-Type"@,
        reply.2@ == "text/html"@,
{
    ("HTTP/1.1 400 BAD REQUEST", String::from_str("Missing Content-Type"), "text/html")
}

/// The reply to a request line of fewer than three words.
pub fn malformed_request() -> (reply: (&'static str, String, &'static str))
    ensures
        reply.0@ == "HTTP/1.1 400 BAD REQUEST"@,
        reply.1@ == "400 BAD REQUEST"@,
        reply.2@ == "text/html"@,
{
    ("HTTP/1.1 400 BAD REQUEST", String::from_str("400 BAD REQUEST"), "text/html")
}

/// Whether `path` has the form of the path of a processed video:
/// `processed/`, ten letters from `a` to `y`, `.mp4`.
pub open spec fn is_processed_path(path: Seq<char>) -> bool {
    exists|letters: Seq<char>|
        {
            &&& letters.len() == 10
            &&& forall|i: int| 0 <= i < 10 ==> 'a' <= #[trigger] letters[i] <= 'y'
            &&& path == "processed/"@ + letters + ".mp4"@
        }
}

/// Draws the path under which a processed video is written.
pub fn get_random_processed_path() -> (path: String)
    ensures
        is_processed_path(path@),
{
    let mut path = String::from_str("processed/");
    let ghost mut letters = Seq::<char>::empty();
    let mut i: usize = 0;
    while i < 10
        invariant
            i <= 10,
            letters.len() == i,
            forall|j: int| 0 <= j < i ==> 'a' <= #[trigger] letters[j] <= 'y',
            path@ =~= "processed/"@ + letters,
        decreases 10 - i,
    {
        let letter = random_byte(0x61, 0x79) as char;
        path.push(letter);
        proof {
            letters = letters.push(letter);
        }
        i += 1;
    }
    path.append(".mp4");
    path
}

/// The text that `serde_json` writes for the object with the one member
/// `key`, whose value is the text `value`.
pub uninterp spec fn json_text_member(key: Seq<char>, value: Seq<char>) -> Seq<char>;

/// `serde_json::Map::insert` of a text under `key` into an empty map,
/// and `to_string` of the object: its compact JSON text.
#[verifier::external_body]
fn json_with_text(key: &str, value: &str) -> (text: String)
    ensures
        text@ == json_text_member(key@, value@),
{
    let mut members = serde_json::Map::new();
    members.insert(key.to_string(), serde_json::Value::from(value));
    serde_json::Value::Object(members).to_string()
}

/// How the processing of an uploaded video ended.
#[derive(Debug)]
pub enum Processing {
    /// The video could not be trimmed; the message says why.
    EditFailed { message: String },
    /// The trimmed video could not be tracked.
    TrackingFailed,
    /// The processed video lies at `new_path`.
    Done { new_path: String },
}

/// The address under which the processed video at `new_path` is served.
pub open spec fn processed_url(new_path: Seq<char>) -> Option<Seq<char>> {
    match file_name_of(new_path) {
        Some(name) => Some("/processed/"@ + name),
        None => None,
    }
}

/// The address under which the processed video at `new_path` is served.
pub fn video_url(new_path: &str) -> (url: Option<String>)
    ensures
        match url {
            Some(text) => processed_url(new_path@) == Some(text@),
            None => processed_url(new_path@) is None,
        },
{
    match file_name(new_path) {
        Some(name) => {
            let mut url = String::from_str("/processed/");
            url.append(name.as_str());
            Some(url)
        },
        None => None,
    }
}

/// The reply to a video whose processing failed.
pub open spec fn processing_failure(outcome: Processing) -> (Seq<char>, Seq<char>, Seq<char>) {
    (
        "HTTP/1.1 500 Internal Server Error"@,
        match outcome {
            Processing::EditFailed { message } => json_text_member(
                "error"@,
                "Metadata editing failed: "@ + message@,
            ),
            _ => json_text_member("error"@, "Video processing failed"@),
        },
        "application/json"@,
    )
}

/// `/upload/metadata`, once the video has been through the pipeline: the
/// address of the processed video, which the reply is to name beside the
/// measured averages, or the reply to a failure, which is 500 with the
/// reason.
pub fn handle_metadata_upload(outcome: Processing) -> (r: Result<
    String,
    (&'static str, String, &'static str),
>)
    requires
        outcome is Done ==> file_name_of(outcome->new_path@) is Some,
    ensures
        match r {
            Ok(url) => outcome is Done && processed_url(outcome->new_path@) == Some(url@),
            Err(reply) => !(outcome is Done) && (reply.0@, reply.1@, reply.2@)
                == processing_failure(outcome),
        },
{
    let body = match outcome {
        Processing::Done { new_path } => match video_url(new_path.as_str()) {
            Some(url) => {
                return Ok(url);
            },
            None => json_with_text("error", "Video processing failed"),
        },
        Processing::EditFailed { message } => {
            let mut reason = String::from_str("Metadata editing failed: ");
            reason.append(message.as_str());
            json_with_text("error", reason.as_str())
        },
        Processing::TrackingFailed => json_with_text("error", "Video processing failed"),
    };
    Err(("HTTP/1.1 500 Internal Server Error", body, "application/json"))
}

} // verus!
