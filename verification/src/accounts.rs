//! Passwords and sessions. A password is kept as a bcrypt hash; a session
//! is a random token that stands for a user until an instant 24 hours
//! after the login.

use vstd::prelude::*;
use rand::Rng;
use crate::calendar::{
    format_instant, formatted_instant, now_utc, parse_instant, parsed_instant, timestamp_layout,
};
use crate::text::{decimal_two, same_text};

verus! {

/// `bcrypt::BcryptError`: why `bcrypt` failed. Nothing is read from it.
#[verifier::external_type_specification]
#[verifier::external_body]
pub struct ExBcryptError(bcrypt::BcryptError);

/// The work factor of the hashes that this library makes.
pub const HASH_COST: u32 = 12;

/// The number of characters of a session token.
pub const TOKEN_LENGTH: usize = 32;

/// The seconds for which a session lasts.
pub const SESSION_SECONDS: i64 = 86400;

/// What `bcrypt::verify` says of a password and a hash: whether they
/// match, or `None` where it fails on the hash.
pub uninterp spec fn bcrypt_verdict(password: Seq<char>, hash: Seq<char>) -> Option<bool>;

/// `bcrypt::verify`: the verdict depends on the password and the hash
/// alone.
#[verifier::external_body]
fn verify_hash(password: &str, hash: &str) -> (r: Result<bool, bcrypt::BcryptError>)
    ensures
        match r {
            Ok(matches) => bcrypt_verdict(password@, hash@) == Some(matches),
            Err(_) => bcrypt_verdict(password@, hash@) is None,
        },
{
    bcrypt::verify(password, hash)
}

/// `bcrypt::hash`: a hash of the password under a fresh random salt. A
/// cost outside 4 to 31 is refused, and the call fails when the system
/// has no random bytes to give. The hash is written in 60 characters that
/// begin with `$2b$`, the cost in two digits and `$`; it holds the cost
/// and the salt, so that `bcrypt::verify` recomputes it from the same
/// password and finds a match.
#[verifier::external_body]
fn hash_with_cost(password: &str, cost: u32) -> (r: Result<String, bcrypt::BcryptError>)
    ensures
        !(4 <= cost <= 31) ==> r is Err,
        r is Ok ==> is_hash_of_cost(r->Ok_0@, cost),
        r is Ok ==> bcrypt_verdict(password@, r->Ok_0@) == Some(true),
{
    bcrypt::hash(password, cost)
}

/// `Rng::gen_range` on the thread's generator, over the bytes from `low`
/// to `high`, both included. It panics on an empty range.
#[verifier::external_body]
pub(crate) fn random_byte(low: u8, high: u8) -> (r: u8)
    requires
        low <= high,
    ensures
        low <= r <= high,
{
    rand::thread_rng().gen_range(low..=high)
}

/// Hashes the password of a new account with the cost `HASH_COST`. The
/// hash is what the store keeps: the password itself is never stored.
/// Whether a hash can be made is for the system's random source to say,
/// so no password is owed one; a hash that is made is of that cost and
/// matches the password. What is returned for each outcome of the
/// hashing is `kept`.
pub fn register_user(password: &str) -> (r: Result<String, RegisterError>)
    ensures
        match r {
            Ok(hash) => {
                &&& is_hash_of_cost(hash@, HASH_COST)
                &&& bcrypt_verdict(password@, hash@) == Some(true)
            },
            Err(e) => e == RegisterError::HashFailed,
        },
{
    let outcome = match hash_with_cost(password, HASH_COST) {
        Ok(hash) => Some(hash),
        Err(_) => None,
    };
    keep_hash(outcome)
}

/// Why an account could not be created.
#[derive(Clone, Copy, Debug, PartialEq, Eq, Structural)]
pub enum RegisterError {
    /// The password could not be hashed.
    HashFailed,
}

/// Whether `hash` has the form of a bcrypt hash of the cost `cost`: 60
/// characters, of which the first seven are `$2b$`, the cost in two
/// digits, and `$`.
pub open spec fn is_hash_of_cost(hash: Seq<char>, cost: u32) -> bool {
    &&& hash.len() == 60
    &&& hash.take(7) == "$2b$"@ + decimal_two(cost as nat) + "$"@
}

/// What a registration keeps of the outcome of the hashing: the hash,
/// where one was made.
pub open spec fn kept(outcome: Option<String>) -> Result<String, RegisterError> {
    match outcome {
        Some(hash) => Ok(hash),
        None => Err(RegisterError::HashFailed),
    }
}

/// Keeps the hash that was made of a new account's password, or says
/// that none was made.
pub fn keep_hash(outcome: Option<String>) -> (r: Result<String, RegisterError>)
    ensures
        r == kept(outcome),
{
    match outcome {
        Some(hash) => Ok(hash),
        None => Err(RegisterError::HashFailed),
    }
}

/// What the store keeps of a user for the login.
#[derive(Debug)]
pub struct StoredUser {
    pub id: u32,
    pub password_hash: String,
}

/// A session: a token that stands for a user until `expires_at`.
#[derive(Debug)]
pub struct Session {
    pub user_id: u32,
    pub token: String,
    pub expires_at: i64,
}

/// Why a login was refused.
#[derive(Clone, Copy, Debug, PartialEq, Eq, Structural)]
pub enum LoginError {
    /// No user has the name.
    UnknownUser,
    /// The password does not match the stored hash.
    WrongPassword,
    /// The stored hash cannot be read.
    UnreadableHash,
    /// No instant lies 24 hours after the login.
    ClockOutOfRange,
}

/// Whether `token` has the form of a session token: 32 lowercase letters
/// from `a` to `z`.
pub open spec fn is_session_token(token: Seq<char>) -> bool {
    &&& token.len() == TOKEN_LENGTH
    &&& forall|i: int| 0 <= i < token.len() ==> 'a' <= #[trigger] token[i] <= 'z'
}

/// Makes a fresh session token.
pub fn generate_session_token() -> (token: String)
    ensures
        is_session_token(token@),
{
    let mut token = String::new();
    let mut i: usize = 0;
    while i < TOKEN_LENGTH
        invariant
            i <= TOKEN_LENGTH,
            token@.len() == i,
            forall|j: int| 0 <= j < i ==> 'a' <= #[trigger] token@[j] <= 'z',
        decreases TOKEN_LENGTH - i,
    {
        let letter = random_byte(0x61, 0x7a) as char;
        token.push(letter);
        i += 1;
    }
    token
}

/// What a verdict on a password means for the user `user_id`: a match
/// admits the user, a mismatch does not, and a hash that cannot be read
/// admits nobody.
pub open spec fn judged(user_id: u32, verdict: Option<bool>) -> Result<u32, LoginError> {
    match verdict {
        Some(true) => Ok(user_id),
        Some(false) => Err(LoginError::WrongPassword),
        None => Err(LoginError::UnreadableHash),
    }
}

/// Admits or refuses the user `user_id` on the verdict on the password.
pub fn judge(user_id: u32, verdict: Option<bool>) -> (r: Result<u32, LoginError>)
    ensures
        r == judged(user_id, verdict),
{
    match verdict {
        Some(true) => Ok(user_id),
        Some(false) => Err(LoginError::WrongPassword),
        None => Err(LoginError::UnreadableHash),
    }
}

/// The user whom the password admits, or why it admits none.
pub open spec fn checked(user: Option<(u32, Seq<char>)>, password: Seq<char>) -> Result<
    u32,
    LoginError,
> {
    match user {
        None => Err(LoginError::UnknownUser),
        Some((id, hash)) => judged(id, bcrypt_verdict(password, hash)),
    }
}

/// What a stored user holds, if there is one.
pub open spec fn stored_model(user: Option<&StoredUser>) -> Option<(u32, Seq<char>)> {
    match user {
        Some(u) => Some((u.id, u.password_hash@)),
        None => None,
    }
}

/// Checks a password against the user that the store holds under the
/// name given at the login, if it holds one.
pub fn check_password(user: Option<&StoredUser>, password: &str) -> (r: Result<u32, LoginError>)
    ensures
        r == checked(stored_model(user), password@),
{
    match user {
        None => Err(LoginError::UnknownUser),
        Some(u) => {
            let verdict = match verify_hash(password, u.password_hash.as_str()) {
                Ok(matches) => Some(matches),
                Err(_) => None,
            };
            judge(u.id, verdict)
        },
    }
}

/// Logs a user in at the instant `now`: checks the password and opens a
/// session with a fresh token that expires 24 hours later.
pub fn login_at(user: Option<&StoredUser>, password: &str, now: i64) -> (r: Result<
    Session,
    LoginError,
>)
    ensures
        match r {
            Ok(session) => {
                &&& checked(stored_model(user), password@) == Ok::<u32, LoginError>(session.user_id)
                &&& is_session_token(session.token@)
                &&& session.expires_at == now + SESSION_SECONDS
            },
            Err(e) => match checked(stored_model(user), password@) {
                Err(reason) => e == reason,
                Ok(_) => e == LoginError::ClockOutOfRange && now + SESSION_SECONDS > i64::MAX,
            },
        },
{
    let user_id = match check_password(user, password) {
        Ok(id) => id,
        Err(e) => {
            return Err(e);
        },
    };
    if now > i64::MAX - SESSION_SECONDS {
        return Err(LoginError::ClockOutOfRange);
    }
    Ok(Session { user_id, token: generate_session_token(), expires_at: now + SESSION_SECONDS })
}

/// Logs a user in now.
pub fn login(user: Option<&StoredUser>, password: &str) -> (r: Result<Session, LoginError>)
    ensures
        match r {
            Ok(session) => {
                &&& checked(stored_model(user), password@) == Ok::<u32, LoginError>(session.user_id)
                &&& is_session_token(session.token@)
            },
            Err(e) => match checked(stored_model(user), password@) {
                Err(reason) => e == reason,
                Ok(_) => e == LoginError::ClockOutOfRange,
            },
        },
{
    login_at(user, password, now_utc())
}

/// The expiry of a session as the store keeps it.
pub fn expiry_text(session: &Session) -> (text: Option<String>)
    ensures
        match text {
            Some(t) => formatted_instant(session.expires_at, timestamp_layout()) == Some(t@),
            None => formatted_instant(session.expires_at, timestamp_layout()) is None,
        },
{
    format_instant(session.expires_at, "%Y-%m-%d %H:%M:%S")
}

/// A session as the store keeps it, with its expiry written in the
/// layout of the store.
#[derive(Debug)]
pub struct StoredSession {
    pub user_id: u32,
    pub token: String,
    pub expires_at: String,
}

/// Whether a session whose expiry the store keeps as `expires_at` still
/// stands for its user at the instant `now`: when the expiry can be read
/// and `now` lies before it. Sessions are never purged: an expired one
/// simply no longer counts.
pub open spec fn is_live(expires_at: Seq<char>, now: i64) -> bool {
    lives(parsed_instant(expires_at, timestamp_layout()), now)
}

/// Whether a session of the expiry `expiry`, if it has one that can be
/// read, stands at the instant `now`.
pub open spec fn lives(expiry: Option<i64>, now: i64) -> bool {
    match expiry {
        Some(instant) => now < instant,
        None => false,
    }
}

/// Whether a session of that expiry stands at the instant `now`.
pub fn is_before_expiry(expiry: Option<i64>, now: i64) -> (live: bool)
    ensures
        live == lives(expiry, now),
{
    match expiry {
        Some(instant) => now < instant,
        None => false,
    }
}

/// What a sequence of stored sessions holds.
pub open spec fn session_models(sessions: Seq<StoredSession>) -> Seq<(u32, Seq<char>, Seq<char>)> {
    Seq::new(
        sessions.len(),
        |i: int| (sessions[i].user_id, sessions[i].token@, sessions[i].expires_at@),
    )
}

/// The user of the first of `sessions` from index `from` on that has the
/// token `token` and is live at `now`.
pub open spec fn resolved(
    sessions: Seq<(u32, Seq<char>, Seq<char>)>,
    token: Seq<char>,
    now: i64,
    from: int,
) -> Option<u32>
    decreases sessions.len() - from,
{
    if from < 0 || from >= sessions.len() {
        None
    } else if sessions[from].1 == token && is_live(sessions[from].2, now) {
        Some(sessions[from].0)
    } else {
        resolved(sessions, token, now, from + 1)
    }
}

/// Whether a stored session is live at `now`.
pub fn session_is_live(session: &StoredSession, now: i64) -> (live: bool)
    ensures
        live == is_live(session.expires_at@, now),
{
    let expiry = match parse_instant(session.expires_at.as_str(), "%Y-%m-%d %H:%M:%S") {
        Ok(instant) => Some(instant),
        Err(_) => None,
    };
    is_before_expiry(expiry, now)
}

/// Resolves a token to its user at the instant `now`.
pub fn get_user_id_from_token_at(sessions: &Vec<StoredSession>, token: &str, now: i64) -> (user:
    Option<u32>)
    ensures
        user == resolved(session_models(sessions@), token@, now, 0),
{
    let mut i: usize = 0;
    let ghost all = session_models(sessions@);
    while i < sessions.len()
        invariant
            i <= sessions@.len(),
            all == session_models(sessions@),
            resolved(all, token@, now, 0) == resolved(all, token@, now, i as int),
        decreases sessions@.len() - i,
    {
        if same_text(sessions[i].token.as_str(), token) && session_is_live(&sessions[i], now) {
            return Some(sessions[i].user_id);
        }
        i += 1;
    }
    None
}

/// Resolves a token to its user now.
pub fn get_user_id_from_token(sessions: &Vec<StoredSession>, token: &str) -> (user: Option<u32>)
    ensures
        exists|now: i64| user == resolved(session_models(sessions@), token@, now, 0),
{
    let now = now_utc();
    let user = get_user_id_from_token_at(sessions, token, now);
    proof {
        assert(user == resolved(session_models(sessions@), token@, now, 0));
    }
    user
}

/// A session resolves to its user before the instant of its expiry, and
/// to nobody from that instant on.
pub proof fn lemma_session_expires(
    user_id: u32,
    token: Seq<char>,
    expires_at: Seq<char>,
    expiry: i64,
    now: i64,
)
    requires
        parsed_instant(expires_at, timestamp_layout()) == Some(expiry),
    ensures
        now < expiry ==> resolved(seq![(user_id, token, expires_at)], token, now, 0) == Some(
            user_id,
        ),
        now >= expiry ==> resolved(seq![(user_id, token, expires_at)], token, now, 0) is None,
{
    let sessions = seq![(user_id, token, expires_at)];
    assert(resolved(sessions, token, now, 1) is None);
}

/// The session of a login at the instant `login_instant` resolves to the
/// user who logged in for 24 hours, and to nobody after that.
pub proof fn lemma_login_session_lasts_a_day(
    user_id: u32,
    token: Seq<char>,
    expires_at: Seq<char>,
    login_instant: i64,
    now: i64,
)
    requires
        login_instant + SESSION_SECONDS <= i64::MAX,
        parsed_instant(expires_at, timestamp_layout()) == Some(
            (login_instant + SESSION_SECONDS) as i64,
        ),
    ensures
        now < login_instant + SESSION_SECONDS ==> resolved(
            seq![(user_id, token, expires_at)],
            token,
            now,
            0,
        ) == Some(user_id),
        now >= login_instant + SESSION_SECONDS ==> resolved(
            seq![(user_id, token, expires_at)],
            token,
            now,
            0,
        ) is None,
{
    lemma_session_expires(
        user_id,
        token,
        expires_at,
        (login_instant + SESSION_SECONDS) as i64,
        now,
    );
}

/// No token resolves through sessions that are all expired.
pub proof fn lemma_expired_sessions_resolve_nothing(
    sessions: Seq<(u32, Seq<char>, Seq<char>)>,
    token: Seq<char>,
    now: i64,
    from: int,
)
    requires
        0 <= from,
        forall|i: int| 0 <= i < sessions.len() ==> !is_live(#[trigger] sessions[i].2, now),
    ensures
        resolved(sessions, token, now, from) is None,
    decreases sessions.len() - from,
{
    if from < sessions.len() {
        lemma_expired_sessions_resolve_nothing(sessions, token, now, from + 1);
    }
}

/// What resolves, resolves to the user of a live session with the token.
pub proof fn lemma_resolved_is_live(
    sessions: Seq<(u32, Seq<char>, Seq<char>)>,
    token: Seq<char>,
    now: i64,
    from: int,
)
    requires
        0 <= from,
        resolved(sessions, token, now, from) is Some,
    ensures
        exists|i: int|
            from <= i < sessions.len() && #[trigger] sessions[i].1 == token && is_live(
                sessions[i].2,
                now,
            ) && resolved(sessions, token, now, from) == Some(sessions[i].0),
    decreases sessions.len() - from,
{
    if sessions[from].1 == token && is_live(sessions[from].2, now) {
    } else {
        lemma_resolved_is_live(sessions, token, now, from + 1);
    }
}

/// Whoever registered with a password is admitted with it: the hash that
/// the registration made matches the password at every later login.
pub proof fn lemma_registered_password_is_admitted(id: u32, password: Seq<char>, hash: Seq<char>)
    requires
        bcrypt_verdict(password, hash) == Some(true),
    ensures
        checked(Some((id, hash)), password) == Ok::<u32, LoginError>(id),
{
}

} // verus!
