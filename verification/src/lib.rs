//! The core of a workout-tracking server, kept free of sockets, files and
//! the storage engine so that every rule in it is proved.
//!
//! - `protocol` reads the head of a request and writes responses.
//! - `routes` holds one handler for each route. A handler is a function
//!   from what the store has answered so far to the next step: a call to
//!   the store, or the reply.
//! - `upload` cuts a multipart body and decides what a video upload
//!   stores.
//! - `history`, `weekly`, `trend`, `templates` and `catalog` derive the
//!   views from stored rows; `workout_log` says what is written when a
//!   workout is saved.
//! - `accounts` checks passwords and opens and resolves sessions.
//! - `retention` plans the sweep of the working directories.
//! - `calendar` and `text` hold what the others share.
//!
//! Weights are whole grams throughout. Dates are formatted and parsed by
//! `chrono`, passwords are hashed by `bcrypt`, tokens are drawn with `rand`
//! and a few JSON objects are written by `serde_json`; the contracts of
//! those calls are stated where the calls are made and are not proved.

pub mod accounts;
pub mod calendar;
pub mod catalog;
pub mod database_handler;
pub mod history;
pub mod protocol;
pub mod retention;
pub mod routes;
pub mod templates;
pub mod text;
pub mod tracker;
pub mod trend;
pub mod upload;
pub mod weekly;
pub mod workout_log;
pub mod wt_types;
