//! Authentication: salted password hashes, login sessions with expiry,
//! session cookies, and locking a user name out after repeated failures.
//!
//! The session table and the failure table are values owned by the caller.
//! Each operation that depends on the time has a variant `..._at` that takes
//! the current time in seconds, with an exact contract, and a variant that
//! reads the system clock.

use vstd::prelude::*;
use vstd::utf8::encode_utf8;
use vstd::string::StringSliceAdditionalSpecFns;
use crate::clock::{now_nanos, now_secs};
use crate::sha::{hex_lower, is_lower_hex, lemma_hex_lower_shape, sha256, sha256_digest, to_hex_lower};
use crate::table::{KeyTable, elapsed, is_recent, recent_part};
use crate::text::{chars_eq, chars_eq_str, chars_of, decimal, push_decimal, split, split_chars, split_once, split_once_chars, string_of, trim, trim_chars};

verus! {

// ------------------------------------------------------------------
// Constants
// ------------------------------------------------------------------

/// Failed logins after which a user name is locked.
pub const MAX_LOGIN_ATTEMPTS: u32 = 5;

/// How long failures are counted from the first one, and how long a lock
/// lasts from the failure that reached the limit, in seconds.
pub const LOCKOUT_DURATION_SECS: u64 = 300;

/// Default lifetime of a session, in seconds.
pub const DEFAULT_SESSION_TTL_SECS: u64 = 3600;

// ------------------------------------------------------------------
// Password hashing
// ------------------------------------------------------------------

/// The salted hash of a password: SHA-256 of the salt followed by the
/// password's UTF-8 bytes, in lower-case hex.
pub open spec fn password_hash(plain: Seq<char>) -> Seq<char> {
    hex_lower(sha256(encode_utf8("rdplatform_salt_2026:"@) + encode_utf8(plain)))
}

fn append_bytes(v: &mut Vec<u8>, s: &[u8])
    ensures
        final(v)@ == old(v)@ + s@,
{
    let n = s.len();
    let mut i: usize = 0;
    while i < n
        invariant
            n == s@.len(),
            i <= n,
            v@ == old(v)@ + s@.take(i as int),
        decreases n - i,
    {
        v.push(s[i]);
        i = i + 1;
        assert(v@ =~= old(v)@ + s@.take(i as int));
    }
    assert(s@.take(n as int) =~= s@);
}

/// Hashes a password with the fixed salt (SHA-256, lower-case hex).
pub fn hash_password(plain: &str) -> (res: String)
    ensures
        res@ == password_hash(plain@),
        res@.len() == 64,
        forall|i: int| 0 <= i < 64 ==> is_lower_hex(#[trigger] res@[i]),
{
    let mut data: Vec<u8> = Vec::new();
    append_bytes(&mut data, "rdplatform_salt_2026:".as_bytes());
    append_bytes(&mut data, plain.as_bytes());
    assert(data@ =~= encode_utf8("rdplatform_salt_2026:"@) + encode_utf8(plain@));
    let digest = sha256_digest(data.as_slice());
    proof {
        lemma_hex_lower_shape(digest@);
    }
    to_hex_lower(digest.as_slice())
}

/// Whether a password matches a stored hash.
pub fn verify_password(plain: &str, hash: &str) -> (res: bool)
    ensures
        res == password_matches(plain@, hash@),
{
    let h = hash_password(plain);
    let a = chars_of(h.as_str());
    let b = chars_of(hash);
    chars_eq(a.as_slice(), b.as_slice())
}

/// Whether a stored hash is the hash of a password.
pub open spec fn password_matches(plain: Seq<char>, hash: Seq<char>) -> bool {
    password_hash(plain) == hash
}

/// A password always verifies against its own hash.
pub proof fn law_password_verifies_own_hash(plain: Seq<char>)
    ensures
        password_matches(plain, password_hash(plain)),
{
}

// ------------------------------------------------------------------
// Cookies
// ------------------------------------------------------------------

/// The session token among `;`-separated cookie pieces: the value of the
/// first piece `token=value`, both sides trimmed.
pub open spec fn token_among(parts: Seq<Seq<char>>) -> Option<Seq<char>>
    decreases parts.len(),
{
    if parts.len() == 0 {
        None
    } else {
        match split_once(trim(parts[0]), '=') {
            Some((k, v)) => if trim(k) == "token"@ {
                Some(trim(v))
            } else {
                token_among(parts.drop_first())
            },
            None => token_among(parts.drop_first()),
        }
    }
}

/// The session token of a `Cookie` header value.
pub open spec fn cookie_token(cookie: Seq<char>) -> Option<Seq<char>> {
    token_among(split(cookie, ';'))
}

/// Reads the session token from a `Cookie` header (`token=...`).
pub fn token_from_cookie(cookie: &str) -> (res: Option<String>)
    ensures
        match cookie_token(cookie@) {
            Some(t) => res matches Some(r) && r@ == t,
            None => res is None,
        },
{
    let cs = chars_of(cookie);
    let parts = split_chars(cs.as_slice(), ';');
    let ghost ps = split(cookie@, ';');
    let n = parts.len();
    let mut i: usize = 0;
    assert(ps.skip(0) =~= ps);
    while i < n
        invariant
            n == parts@.len(),
            ps == split(cookie@, ';'),
            n == ps.len(),
            forall|j: int| 0 <= j < n ==> #[trigger] parts@[j]@ == ps[j],
            i <= n,
            token_among(ps.skip(i as int)) == cookie_token(cookie@),
        decreases n - i,
    {
        let ghost rest = ps.skip(i as int);
        assert(rest[0] == parts@[i as int]@);
        assert(rest.drop_first() =~= ps.skip(i + 1));
        let part = trim_chars(parts[i].as_slice());
        match split_once_chars(part.as_slice(), '=') {
            Some((k, v)) => {
                let kt = trim_chars(k.as_slice());
                if chars_eq_str(kt.as_slice(), "token") {
                    let vt = trim_chars(v.as_slice());
                    return Some(string_of(vt.as_slice()));
                }
            },
            None => {},
        }
        i = i + 1;
    }
    None
}

// ------------------------------------------------------------------
// Sessions
// ------------------------------------------------------------------

/// Login sessions: token to `(member id, creation time)`, with a lifetime
/// (TTL) and a counter that makes each token seed distinct.
pub struct SessionTable {
    sessions: KeyTable,
    ttl: u64,
    counter: u64,
}

impl SessionTable {
    /// Token to `(member id, creation time in seconds)`.
    pub closed spec fn sessions(&self) -> Map<Seq<char>, (u32, u64)> {
        self.sessions@
    }

    /// Lifetime of a session, in seconds.
    pub closed spec fn ttl(&self) -> u64 {
        self.ttl
    }

    /// Number of sessions created so far (wrapping).
    pub closed spec fn counter(&self) -> u64 {
        self.counter
    }

    /// An empty table with the default lifetime.
    pub fn new() -> (res: SessionTable)
        ensures
            res.sessions() == Map::<Seq<char>, (u32, u64)>::empty(),
            res.ttl() == DEFAULT_SESSION_TTL_SECS,
            res.counter() == 0,
    {
        SessionTable { sessions: KeyTable::new(), ttl: DEFAULT_SESSION_TTL_SECS, counter: 0 }
    }
}

/// The member of a session that has not expired at `now`:
/// expired means `now - created >= ttl` (saturating).
pub open spec fn session_lookup(sessions: Map<Seq<char>, (u32, u64)>, ttl: u64, token: Seq<char>, now: u64) -> Option<u32> {
    if sessions.dom().contains(token) && is_recent(sessions[token], now, ttl) {
        Some(sessions[token].0)
    } else {
        None
    }
}

/// The counter after one more session (`AtomicU64::fetch_add` wraps).
pub open spec fn next_counter(c: u64) -> u64 {
    if c == u64::MAX {
        0
    } else {
        (c + 1) as u64
    }
}

/// The text from which a token is derived: `nanos:member_id:counter`.
pub open spec fn token_seed(nanos: u128, member_id: u32, counter: u64) -> Seq<char> {
    decimal(nanos as nat) + ":"@ + decimal(member_id as nat) + ":"@ + decimal(counter as nat)
}

/// A session token: SHA-256 of the seed text, in lower-case hex.
pub open spec fn session_token(nanos: u128, member_id: u32, counter: u64) -> Seq<char> {
    hex_lower(sha256(encode_utf8(token_seed(nanos, member_id, counter))))
}

/// Sets the session lifetime (seconds).
pub fn set_session_ttl(table: &mut SessionTable, seconds: u64)
    ensures
        final(table).ttl() == seconds,
        final(table).sessions() == old(table).sessions(),
        final(table).counter() == old(table).counter(),
{
    table.ttl = seconds;
}

/// Creates a session for a member at time `now` (seconds); `nanos` is the
/// clock reading, in nanoseconds, from which the token is derived.
pub fn create_session_at(table: &mut SessionTable, member_id: u32, nanos: u128, now: u64) -> (token:
    String)
    ensures
        token@ == session_token(nanos, member_id, old(table).counter()),
        token@.len() == 64,
        forall|i: int| 0 <= i < token@.len() ==> is_lower_hex(#[trigger] token@[i]),
        final(table).sessions() == old(table).sessions().insert(token@, (member_id, now)),
        final(table).ttl() == old(table).ttl(),
        final(table).counter() == next_counter(old(table).counter()),
{
    let c = table.counter;
    table.counter = if c == u64::MAX {
        0
    } else {
        c + 1
    };
    let mut seed = String::new();
    push_decimal(&mut seed, nanos);
    push_char_str(&mut seed, ":");
    push_decimal(&mut seed, member_id as u128);
    push_char_str(&mut seed, ":");
    push_decimal(&mut seed, c as u128);
    assert(seed@ =~= token_seed(nanos, member_id, c));
    let digest = sha256_digest(seed.as_str().as_bytes());
    proof {
        lemma_hex_lower_shape(digest@);
    }
    let token = to_hex_lower(digest.as_slice());
    let key = chars_of(token.as_str());
    table.sessions.insert(key.as_slice(), (member_id, now));
    token
}

fn push_char_str(out: &mut String, s: &str)
    ensures
        final(out)@ == old(out)@ + s@,
{
    let cs = chars_of(s);
    crate::text::push_chars(out, cs.as_slice());
}

/// Creates a session for a member at the current time and returns its token.
pub fn create_session(table: &mut SessionTable, member_id: u32) -> (token: String)
    ensures
        exists|nanos: u128, now: u64|
            token@ == session_token(nanos, member_id, old(table).counter())
                && final(table).sessions() == old(table).sessions().insert(token@, (member_id, now)),
        token@.len() == 64,
        forall|i: int| 0 <= i < token@.len() ==> is_lower_hex(#[trigger] token@[i]),
        final(table).ttl() == old(table).ttl(),
        final(table).counter() == next_counter(old(table).counter()),
{
    let nanos = now_nanos();
    let now = now_secs();
    create_session_at(table, member_id, nanos, now)
}

/// The member of a session at time `now`, if it exists and has not expired.
pub fn session_member_id_at(table: &SessionTable, token: &str, now: u64) -> (res: Option<u32>)
    ensures
        res == session_lookup(table.sessions(), table.ttl(), token@, now),
{
    let key = chars_of(token);
    match table.sessions.get(key.as_slice()) {
        Some((m, created)) => {
            let age: u64 = if now >= created {
                now - created
            } else {
                0
            };
            if age < table.ttl {
                Some(m)
            } else {
                None
            }
        },
        None => None,
    }
}

/// The member of a session, if it exists and has not expired by the clock.
pub fn session_member_id(table: &SessionTable, token: &str) -> (res: Option<u32>)
    ensures
        exists|now: u64| res == session_lookup(table.sessions(), table.ttl(), token@, now),
{
    let now = now_secs();
    session_member_id_at(table, token, now)
}

/// Ends a session (logout).
pub fn destroy_session(table: &mut SessionTable, token: &str)
    ensures
        final(table).sessions() == old(table).sessions().remove(token@),
        final(table).ttl() == old(table).ttl(),
        final(table).counter() == old(table).counter(),
{
    let key = chars_of(token);
    table.sessions.remove(key.as_slice());
}

/// Removes the sessions that have expired at `now`.
pub fn cleanup_expired_sessions_at(table: &mut SessionTable, now: u64)
    ensures
        final(table).sessions() == recent_part(old(table).sessions(), now, old(table).ttl()),
        final(table).ttl() == old(table).ttl(),
        final(table).counter() == old(table).counter(),
{
    let ttl = table.ttl;
    table.sessions.retain_recent(now, ttl);
}

/// Removes the sessions that have expired by the clock.
pub fn cleanup_expired_sessions(table: &mut SessionTable)
    ensures
        exists|now: u64|
            final(table).sessions() == recent_part(old(table).sessions(), now, old(table).ttl()),
        final(table).ttl() == old(table).ttl(),
        final(table).counter() == old(table).counter(),
{
    let now = now_secs();
    cleanup_expired_sessions_at(table, now);
}

/// The number of sessions that have not expired at `now`.
pub fn active_session_count_at(table: &SessionTable, now: u64) -> (res: usize)
    ensures
        res == recent_part(table.sessions(), now, table.ttl()).len(),
{
    table.sessions.count_recent(now, table.ttl)
}

/// The number of sessions that have not expired by the clock.
pub fn active_session_count(table: &SessionTable) -> (res: usize)
    ensures
        exists|now: u64| res == recent_part(table.sessions(), now, table.ttl()).len(),
{
    let now = now_secs();
    active_session_count_at(table, now)
}

/// The sessions after a session's creation time is set to 0.
pub open spec fn expire(sessions: Map<Seq<char>, (u32, u64)>, token: Seq<char>) -> Map<
    Seq<char>,
    (u32, u64),
> {
    if sessions.dom().contains(token) {
        sessions.insert(token, (sessions[token].0, 0))
    } else {
        sessions
    }
}

/// Makes a session expire at once, by setting its creation time to 0.
pub fn force_expire_session(table: &mut SessionTable, token: &str)
    ensures
        final(table).sessions() == expire(old(table).sessions(), token@),
        final(table).ttl() == old(table).ttl(),
        final(table).counter() == old(table).counter(),
{
    let key = chars_of(token);
    match table.sessions.get(key.as_slice()) {
        Some((m, _)) => {
            table.sessions.insert(key.as_slice(), (m, 0));
        },
        None => {},
    }
}

/// A new session belongs to its member until its lifetime has passed.
pub proof fn law_new_session_found(
    sessions: Map<Seq<char>, (u32, u64)>,
    ttl: u64,
    token: Seq<char>,
    member_id: u32,
    created: u64,
    now: u64,
)
    requires
        elapsed(now, created) < ttl,
    ensures
        session_lookup(sessions.insert(token, (member_id, created)), ttl, token, now) == Some(
            member_id,
        ),
{
}

/// A session is gone once it has expired.
pub proof fn law_expired_session_gone(
    sessions: Map<Seq<char>, (u32, u64)>,
    ttl: u64,
    token: Seq<char>,
    now: u64,
)
    requires
        sessions.dom().contains(token),
        elapsed(now, sessions[token].1) >= ttl,
    ensures
        session_lookup(sessions, ttl, token, now) is None,
{
}

/// A destroyed session is not found, and the other sessions are unchanged.
pub proof fn law_destroyed_session_gone(
    sessions: Map<Seq<char>, (u32, u64)>,
    ttl: u64,
    token: Seq<char>,
    other: Seq<char>,
    now: u64,
)
    ensures
        session_lookup(sessions.remove(token), ttl, token, now) is None,
        other != token ==> session_lookup(sessions.remove(token), ttl, other, now)
            == session_lookup(sessions, ttl, other, now),
{
}

/// Removing expired sessions changes no lookup at the same time.
pub proof fn law_cleanup_keeps_lookups(
    sessions: Map<Seq<char>, (u32, u64)>,
    ttl: u64,
    token: Seq<char>,
    now: u64,
)
    ensures
        session_lookup(recent_part(sessions, now, ttl), ttl, token, now) == session_lookup(
            sessions,
            ttl,
            token,
            now,
        ),
{
}

/// A forced expiry ends the session whenever the clock is past the lifetime,
/// and leaves the other sessions as they were.
pub proof fn law_forced_expiry(
    sessions: Map<Seq<char>, (u32, u64)>,
    ttl: u64,
    token: Seq<char>,
    other: Seq<char>,
    now: u64,
)
    requires
        now >= ttl,
    ensures
        session_lookup(expire(sessions, token), ttl, token, now) is None,
        other != token ==> session_lookup(expire(sessions, token), ttl, other, now)
            == session_lookup(sessions, ttl, other, now),
{
}

// ------------------------------------------------------------------
// Login failures
// ------------------------------------------------------------------

/// Failed logins: user name to `(count, start of the window)`; the window
/// starts at the first failure, and again at the failure that reaches the
/// limit, when the lock begins.
pub struct LoginFailures {
    failures: KeyTable,
}

impl LoginFailures {
    /// User name to `(number of failures, start of the window in seconds)`.
    pub closed spec fn records(&self) -> Map<Seq<char>, (u32, u64)> {
        self.failures@
    }

    /// No failures recorded.
    pub fn new() -> (res: LoginFailures)
        ensures
            res.records() == Map::<Seq<char>, (u32, u64)>::empty(),
    {
        LoginFailures { failures: KeyTable::new() }
    }
}

/// The record after a failure at `now`: a first failure, or a failure after
/// the window, starts a new count; otherwise the count goes up by one, and
/// the failure that reaches the limit starts the lock window.
pub open spec fn after_failure(records: Map<Seq<char>, (u32, u64)>, user: Seq<char>, now: u64) -> Map<
    Seq<char>,
    (u32, u64),
> {
    if records.dom().contains(user) && elapsed(now, records[user].1) < LOCKOUT_DURATION_SECS {
        let count = (records[user].0 + 1) as u32;
        records.insert(
            user,
            (
                count,
                if count == MAX_LOGIN_ATTEMPTS {
                    now
                } else {
                    records[user].1
                },
            ),
        )
    } else {
        records.insert(user, (1, now))
    }
}

/// Whether a user is locked at `now`: the limit is reached and the window
/// that began with the failure reaching it has not passed.
pub open spec fn locked_out(records: Map<Seq<char>, (u32, u64)>, user: Seq<char>, now: u64) -> bool {
    records.dom().contains(user) && records[user].0 >= MAX_LOGIN_ATTEMPTS && elapsed(
        now,
        records[user].1,
    ) < LOCKOUT_DURATION_SECS
}

/// Attempts left at `now`: all of them when there is no record or its
/// window has passed, else the limit minus the failures (at least 0).
pub open spec fn attempts_left(records: Map<Seq<char>, (u32, u64)>, user: Seq<char>, now: u64) -> u32 {
    if !records.dom().contains(user) || elapsed(now, records[user].1) >= LOCKOUT_DURATION_SECS {
        MAX_LOGIN_ATTEMPTS
    } else if records[user].0 >= MAX_LOGIN_ATTEMPTS {
        0
    } else {
        (MAX_LOGIN_ATTEMPTS - records[user].0) as u32
    }
}

/// The failure record of a user, if any.
pub fn failure_record(failures: &LoginFailures, username: &str) -> (res: Option<(u32, u64)>)
    ensures
        res == (if failures.records().dom().contains(username@) {
            Some(failures.records()[username@])
        } else {
            None
        }),
{
    let key = chars_of(username);
    failures.failures.get(key.as_slice())
}

/// Records a failed login at `now`.
pub fn record_login_failure_at(failures: &mut LoginFailures, username: &str, now: u64)
    requires
        old(failures).records().dom().contains(username@) && elapsed(
            now,
            old(failures).records()[username@].1,
        ) < LOCKOUT_DURATION_SECS ==> old(failures).records()[username@].0 < u32::MAX,
    ensures
        final(failures).records() == after_failure(old(failures).records(), username@, now),
{
    let key = chars_of(username);
    match failures.failures.get(key.as_slice()) {
        Some((count, first)) => {
            let age: u64 = if now >= first {
                now - first
            } else {
                0
            };
            if age >= LOCKOUT_DURATION_SECS {
                failures.failures.insert(key.as_slice(), (1, now));
            } else {
                let c = count + 1;
                let start = if c == MAX_LOGIN_ATTEMPTS {
                    now
                } else {
                    first
                };
                failures.failures.insert(key.as_slice(), (c, start));
            }
        },
        None => {
            failures.failures.insert(key.as_slice(), (1, now));
        },
    }
}

/// Records a failed login at the current time.
pub fn record_login_failure(failures: &mut LoginFailures, username: &str)
    requires
        old(failures).records().dom().contains(username@) ==> old(failures).records()[username@].0
            < u32::MAX,
    ensures
        exists|now: u64| final(failures).records() == after_failure(old(failures).records(), username@, now),
{
    let now = now_secs();
    record_login_failure_at(failures, username, now);
}

/// Clears a user's failures (after a successful login).
pub fn clear_login_failures(failures: &mut LoginFailures, username: &str)
    ensures
        final(failures).records() == old(failures).records().remove(username@),
{
    let key = chars_of(username);
    failures.failures.remove(key.as_slice());
}

/// Whether a user is locked out at `now`.
pub fn is_locked_out_at(failures: &LoginFailures, username: &str, now: u64) -> (res: bool)
    ensures
        res == locked_out(failures.records(), username@, now),
{
    let key = chars_of(username);
    match failures.failures.get(key.as_slice()) {
        Some((count, first)) => {
            let age: u64 = if now >= first {
                now - first
            } else {
                0
            };
            count >= MAX_LOGIN_ATTEMPTS && age < LOCKOUT_DURATION_SECS
        },
        None => false,
    }
}

/// Whether a user is locked out by the clock.
pub fn is_locked_out(failures: &LoginFailures, username: &str) -> (res: bool)
    ensures
        exists|now: u64| res == locked_out(failures.records(), username@, now),
{
    let now = now_secs();
    is_locked_out_at(failures, username, now)
}

/// Attempts left to a user at `now`.
pub fn remaining_attempts_at(failures: &LoginFailures, username: &str, now: u64) -> (res: u32)
    ensures
        res == attempts_left(failures.records(), username@, now),
{
    let key = chars_of(username);
    match failures.failures.get(key.as_slice()) {
        Some((count, first)) => {
            let age: u64 = if now >= first {
                now - first
            } else {
                0
            };
            if age >= LOCKOUT_DURATION_SECS {
                MAX_LOGIN_ATTEMPTS
            } else if count >= MAX_LOGIN_ATTEMPTS {
                0
            } else {
                MAX_LOGIN_ATTEMPTS - count
            }
        },
        None => MAX_LOGIN_ATTEMPTS,
    }
}

/// Attempts left to a user by the clock.
pub fn remaining_attempts(failures: &LoginFailures, username: &str) -> (res: u32)
    ensures
        exists|now: u64| res == attempts_left(failures.records(), username@, now),
{
    let now = now_secs();
    remaining_attempts_at(failures, username, now)
}

/// The records after failures at the given times, in order.
pub open spec fn after_failures(records: Map<Seq<char>, (u32, u64)>, user: Seq<char>, times: Seq<u64>) -> Map<
    Seq<char>,
    (u32, u64),
>
    decreases times.len(),
{
    if times.len() == 0 {
        records
    } else {
        after_failure(after_failures(records, user, times.drop_last()), user, times.last())
    }
}

/// The start of the window after `k` failures within the window of the
/// first: the first failure, or the one that reached the limit.
pub open spec fn window_start(times: Seq<u64>) -> u64 {
    if times.len() >= MAX_LOGIN_ATTEMPTS {
        times[MAX_LOGIN_ATTEMPTS - 1]
    } else {
        times[0]
    }
}

/// With no record to start from, `k` failures in time order that all fall
/// within the window of the first one leave `MAX - k` attempts (at least 0)
/// while the window lasts, and lock the user exactly when `k` reaches the
/// limit, for the lock time from the failure that reached it.
pub proof fn law_failures_lock_out(
    records: Map<Seq<char>, (u32, u64)>,
    user: Seq<char>,
    times: Seq<u64>,
    now: u64,
)
    requires
        !records.dom().contains(user),
        times.len() > 0,
        times.len() < u32::MAX,
        forall|i: int| 0 <= i < times.len() ==> elapsed(#[trigger] times[i], times[0]) < LOCKOUT_DURATION_SECS,
        forall|i: int, j: int| 0 <= i <= j < times.len() ==> times[i] <= times[j],
    ensures
        after_failures(records, user, times)[user] == (times.len() as u32, window_start(times)),
        elapsed(now, window_start(times)) < LOCKOUT_DURATION_SECS ==> attempts_left(
            after_failures(records, user, times),
            user,
            now,
        ) == if times.len() >= MAX_LOGIN_ATTEMPTS {
            0
        } else {
            (MAX_LOGIN_ATTEMPTS - times.len()) as u32
        },
        locked_out(after_failures(records, user, times), user, now) <==> (times.len()
            >= MAX_LOGIN_ATTEMPTS && elapsed(now, times[MAX_LOGIN_ATTEMPTS - 1]) < LOCKOUT_DURATION_SECS),
{
    lemma_failure_count(records, user, times);
}

proof fn lemma_failure_count(records: Map<Seq<char>, (u32, u64)>, user: Seq<char>, times: Seq<u64>)
    requires
        !records.dom().contains(user),
        times.len() > 0,
        times.len() < u32::MAX,
        forall|i: int| 0 <= i < times.len() ==> elapsed(#[trigger] times[i], times[0]) < LOCKOUT_DURATION_SECS,
        forall|i: int, j: int| 0 <= i <= j < times.len() ==> times[i] <= times[j],
    ensures
        after_failures(records, user, times).dom().contains(user),
        after_failures(records, user, times)[user] == (times.len() as u32, window_start(times)),
    decreases times.len(),
{
    let prev = times.drop_last();
    if prev.len() > 0 {
        assert forall|i: int| 0 <= i < prev.len() implies elapsed(#[trigger] prev[i], prev[0])
            < LOCKOUT_DURATION_SECS by {
            assert(prev[i] == times[i]);
        }
        assert forall|i: int, j: int| 0 <= i <= j < prev.len() implies prev[i] <= prev[j] by {
            assert(prev[i] == times[i] && prev[j] == times[j]);
        }
        lemma_failure_count(records, user, prev);
        let k = times.len() - 1;
        assert(times.last() == times[k]);
        assert(elapsed(times[k], times[0]) < LOCKOUT_DURATION_SECS);
        if prev.len() >= MAX_LOGIN_ATTEMPTS {
            assert(prev[MAX_LOGIN_ATTEMPTS - 1] == times[MAX_LOGIN_ATTEMPTS - 1]);
            assert(times[0] <= times[MAX_LOGIN_ATTEMPTS - 1]);
            assert(times[MAX_LOGIN_ATTEMPTS - 1] <= times[k]);
        } else {
            assert(prev[0] == times[0]);
        }
    } else {
        assert(after_failures(records, user, prev) == records);
    }
}

/// After the failures are cleared, a user is not locked and has every attempt.
pub proof fn law_cleared_user_unlocked(records: Map<Seq<char>, (u32, u64)>, user: Seq<char>, now: u64)
    ensures
        !locked_out(records.remove(user), user, now),
        attempts_left(records.remove(user), user, now) == MAX_LOGIN_ATTEMPTS,
{
}

/// Once a user's window has passed, the user is not locked, has every
/// attempt again, and the next failure starts a new count.
pub proof fn law_window_passed_resets(records: Map<Seq<char>, (u32, u64)>, user: Seq<char>, now: u64)
    requires
        records.dom().contains(user),
        elapsed(now, records[user].1) >= LOCKOUT_DURATION_SECS,
    ensures
        !locked_out(records, user, now),
        attempts_left(records, user, now) == MAX_LOGIN_ATTEMPTS,
        after_failure(records, user, now)[user] == (1u32, now),
{
}

} // verus!
