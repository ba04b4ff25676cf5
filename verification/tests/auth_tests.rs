//! Passwords, sessions, cookies and the login-failure lockout.

use rdplatform::auth::{
    active_session_count, active_session_count_at, clear_login_failures, cleanup_expired_sessions,
    cleanup_expired_sessions_at, create_session, create_session_at, destroy_session,
    force_expire_session, hash_password, is_locked_out, is_locked_out_at, record_login_failure,
    record_login_failure_at, remaining_attempts, remaining_attempts_at, session_member_id,
    session_member_id_at, set_session_ttl, token_from_cookie, verify_password, LoginFailures,
    SessionTable, DEFAULT_SESSION_TTL_SECS, LOCKOUT_DURATION_SECS, MAX_LOGIN_ATTEMPTS,
};
use rdplatform::store::Store;

// ---- password hashing ----

#[test]
fn hash_and_verify() {
    let h = hash_password("pm123");
    assert_ne!(h, "pm123");
    assert!(verify_password("pm123", &h));
    assert!(!verify_password("wrong", &h));
}

#[test]
fn hash_is_deterministic() {
    assert_eq!(hash_password("dv123"), hash_password("dv123"));
}

#[test]
fn hash_differs_for_different_passwords() {
    assert_ne!(hash_password("pm123"), hash_password("dv123"));
}

#[test]
fn hash_is_salted_sha256_hex() {
    // SHA-256 of "rdplatform_salt_2026:" followed by the password, in lower-case hex.
    let h = hash_password("pm123");
    assert_eq!(h.len(), 64);
    assert!(h.chars().all(|c| c.is_ascii_digit() || ('a'..='f').contains(&c)));
    // The salt is part of the hashed text: the hash of the empty password is
    // not the hash of the empty text.
    assert_ne!(
        hash_password(""),
        "e3b0c44298fc1c149afbf4c8996fb92427ae41e4649b934ca495991b7852b855"
    );
    assert_eq!(h, "1c30173b36e8b9804062b0eccee6b31831ae9ae0e2d1757b50babc72ca597cc3");
    assert_eq!(
        hash_password(""),
        "eabd2c44478321eb50d6d658e0afc26d623055b52c5fa7034ec0cb7029c41edb"
    );
}

#[test]
fn seeded_password_hashes_match() {
    let mut s = Store::new();
    s.seed();

    let pm = s.find_member_by_username("pm1").unwrap();
    assert!(verify_password("pm123", &pm.password_hash));
    assert!(!verify_password("wrong", &pm.password_hash));

    let dev = s.find_member_by_username("dev1").unwrap();
    assert!(verify_password("dv123", &dev.password_hash));

    let qa = s.find_member_by_username("qa1").unwrap();
    assert!(verify_password("qa123", &qa.password_hash));
}

#[test]
fn hash_password_never_returns_plain() {
    for pw in &["pm123", "dv123", "qa123", "", "a"] {
        let h = hash_password(pw);
        assert_ne!(h, *pw, "哈希值不能等于明文");
        assert!(h.len() > 20, "哈希值长度应 > 20");
    }
}

// ---- sessions ----

#[test]
fn session_create_and_query() {
    let mut table = SessionTable::new();
    let token = create_session(&mut table, 1);
    assert_eq!(session_member_id(&table, &token), Some(1));
    destroy_session(&mut table, &token);
    assert_eq!(session_member_id(&table, &token), None);
}

#[test]
fn session_unique_tokens() {
    let mut table = SessionTable::new();
    let t1 = create_session(&mut table, 1);
    let t2 = create_session(&mut table, 1);
    assert_ne!(t1, t2);
    destroy_session(&mut table, &t1);
    destroy_session(&mut table, &t2);
}

#[test]
fn session_expiry_via_force() {
    let mut table = SessionTable::new();
    let token = create_session(&mut table, 2);
    assert_eq!(session_member_id(&table, &token), Some(2));
    force_expire_session(&mut table, &token);
    assert_eq!(session_member_id(&table, &token), None);
}

#[test]
fn session_expiry_via_short_ttl() {
    let mut table = SessionTable::new();
    set_session_ttl(&mut table, 1);
    let token = create_session(&mut table, 3);
    assert_eq!(session_member_id(&table, &token), Some(3));
    force_expire_session(&mut table, &token);
    assert_eq!(session_member_id(&table, &token), None);
    set_session_ttl(&mut table, DEFAULT_SESSION_TTL_SECS);
}

#[test]
fn cleanup_removes_only_expired() {
    let mut table = SessionTable::new();
    let t1 = create_session(&mut table, 1);
    let t2 = create_session(&mut table, 2);
    force_expire_session(&mut table, &t1);
    cleanup_expired_sessions(&mut table);
    assert_eq!(session_member_id(&table, &t1), None);
    assert_eq!(session_member_id(&table, &t2), Some(2));
    destroy_session(&mut table, &t2);
}

#[test]
fn active_session_count_is_nonnegative() {
    let mut table = SessionTable::new();
    let _ = active_session_count(&table);
    let t = create_session(&mut table, 99);
    assert!(session_member_id(&table, &t).is_some());
    destroy_session(&mut table, &t);
    assert!(session_member_id(&table, &t).is_none());
}

#[test]
fn session_full_lifecycle() {
    let mut table = SessionTable::new();
    let token = create_session(&mut table, 1);
    assert!(session_member_id(&table, &token).is_some());
    destroy_session(&mut table, &token);
    assert!(session_member_id(&table, &token).is_none());
}

#[test]
fn multiple_sessions_same_member() {
    let mut table = SessionTable::new();
    let t1 = create_session(&mut table, 5);
    let t2 = create_session(&mut table, 5);
    assert_ne!(t1, t2);
    assert_eq!(session_member_id(&table, &t1), Some(5));
    assert_eq!(session_member_id(&table, &t2), Some(5));

    destroy_session(&mut table, &t1);
    assert!(session_member_id(&table, &t1).is_none());
    assert_eq!(session_member_id(&table, &t2), Some(5));
    destroy_session(&mut table, &t2);
}

#[test]
fn unknown_token_returns_none() {
    let table = SessionTable::new();
    assert!(session_member_id(&table, "nonexistent_token_xyz").is_none());
}

#[test]
fn expired_session_is_invalid() {
    let mut table = SessionTable::new();
    let token = create_session(&mut table, 1);
    assert!(session_member_id(&table, &token).is_some());
    force_expire_session(&mut table, &token);
    assert!(session_member_id(&table, &token).is_none());
}

#[test]
fn cleanup_does_not_affect_active_sessions() {
    let mut table = SessionTable::new();
    let t1 = create_session(&mut table, 1);
    let t2 = create_session(&mut table, 2);
    force_expire_session(&mut table, &t1);

    cleanup_expired_sessions(&mut table);
    assert!(session_member_id(&table, &t1).is_none());
    assert!(session_member_id(&table, &t2).is_some());

    destroy_session(&mut table, &t2);
}

#[test]
fn session_lifetime_at_fixed_times() {
    // A session created at 1000 lives while fewer than TTL seconds have passed.
    let mut table = SessionTable::new();
    let token = create_session_at(&mut table, 7, 123, 1000);
    assert_eq!(session_member_id_at(&table, &token, 1000), Some(7));
    assert_eq!(session_member_id_at(&table, &token, 1000 + DEFAULT_SESSION_TTL_SECS - 1), Some(7));
    assert_eq!(session_member_id_at(&table, &token, 1000 + DEFAULT_SESSION_TTL_SECS), None);
    // A clock that went backwards counts as no time passed.
    assert_eq!(session_member_id_at(&table, &token, 10), Some(7));
    assert_eq!(active_session_count_at(&table, 1000), 1);
    assert_eq!(active_session_count_at(&table, 1000 + DEFAULT_SESSION_TTL_SECS), 0);
    cleanup_expired_sessions_at(&mut table, 1000 + DEFAULT_SESSION_TTL_SECS);
    assert_eq!(session_member_id_at(&table, &token, 1000), None);
}

#[test]
fn session_tokens_differ_by_counter_and_are_hex() {
    // The same clock reading and member still give distinct tokens.
    let mut table = SessionTable::new();
    let t1 = create_session_at(&mut table, 1, 42, 5);
    let t2 = create_session_at(&mut table, 1, 42, 5);
    assert_ne!(t1, t2);
    // The first token is the SHA-256 of "42:1:0" (clock, member, counter).
    assert_eq!(t1, "5d1e07148bcfbbe2598b3eb810b7f1f70df8312bbd6b98dac9c5fdacde086ba8");
    assert_eq!(t1.len(), 64);
    assert!(t1.chars().all(|c| c.is_ascii_hexdigit() && !c.is_ascii_uppercase()));
}

// ---- cookies ----

#[test]
fn cookie_token_parse() {
    assert_eq!(token_from_cookie("token=abc; foo=1"), Some("abc".to_string()));
    assert_eq!(token_from_cookie("foo=1; token=xyz"), Some("xyz".to_string()));
    assert_eq!(token_from_cookie("foo=1"), None);
}

#[test]
fn cookie_edge_cases() {
    assert_eq!(token_from_cookie(""), None);
    assert_eq!(token_from_cookie("token="), Some(String::new()));
    assert_eq!(token_from_cookie("token=abc;"), Some("abc".to_string()));
    assert_eq!(
        token_from_cookie("token=first; token=second"),
        Some("first".to_string())
    );
}

#[test]
fn cookie_parse_various_formats() {
    assert_eq!(
        token_from_cookie("token=abc123; other=xyz"),
        Some("abc123".to_string())
    );
    assert_eq!(
        token_from_cookie("lang=zh; token=xyz789"),
        Some("xyz789".to_string())
    );
    assert_eq!(token_from_cookie("token=solo"), Some("solo".to_string()));
}

#[test]
fn cookie_parse_missing_token() {
    assert!(token_from_cookie("").is_none());
    assert!(token_from_cookie("lang=zh; theme=dark").is_none());
    assert!(token_from_cookie("notoken=abc").is_none());
}

#[test]
fn cookie_spaces_around_key_and_value() {
    assert_eq!(token_from_cookie("  token = v1 ; x=y"), Some("v1".to_string()));
    assert_eq!(token_from_cookie("token==x"), Some("=x".to_string()));
}

// ---- login failures ----

#[test]
fn login_failure_lockout_cycle() {
    let mut failures = LoginFailures::new();
    let user = "test_lockout_user_d";
    clear_login_failures(&mut failures, user);

    assert!(!is_locked_out(&failures, user));
    assert_eq!(remaining_attempts(&failures, user), MAX_LOGIN_ATTEMPTS);

    for i in 0..MAX_LOGIN_ATTEMPTS {
        record_login_failure(&mut failures, user);
        let expected = MAX_LOGIN_ATTEMPTS - i - 1;
        assert_eq!(remaining_attempts(&failures, user), expected, "失败第 {} 次后剩余尝试", i + 1);
    }

    assert!(is_locked_out(&failures, user));
    assert_eq!(remaining_attempts(&failures, user), 0);

    clear_login_failures(&mut failures, user);
    assert!(!is_locked_out(&failures, user));
    assert_eq!(remaining_attempts(&failures, user), MAX_LOGIN_ATTEMPTS);
}

#[test]
fn login_failure_reset_on_success() {
    let mut failures = LoginFailures::new();
    let user = "test_reset_user_d";
    clear_login_failures(&mut failures, user);

    record_login_failure(&mut failures, user);
    record_login_failure(&mut failures, user);
    assert_eq!(remaining_attempts(&failures, user), MAX_LOGIN_ATTEMPTS - 2);

    clear_login_failures(&mut failures, user);
    assert_eq!(remaining_attempts(&failures, user), MAX_LOGIN_ATTEMPTS);
    assert!(!is_locked_out(&failures, user));
}

#[test]
fn login_failure_no_record_is_not_locked() {
    let mut failures = LoginFailures::new();
    let user = "test_clean_user_d";
    clear_login_failures(&mut failures, user);
    assert!(!is_locked_out(&failures, user));
    assert_eq!(remaining_attempts(&failures, user), MAX_LOGIN_ATTEMPTS);
}

#[test]
fn login_failure_count_and_lockout() {
    let mut failures = LoginFailures::new();
    let user = "integ_lockout_user";
    clear_login_failures(&mut failures, user);

    assert!(!is_locked_out(&failures, user));
    assert_eq!(remaining_attempts(&failures, user), 5);

    for _ in 0..4 {
        record_login_failure(&mut failures, user);
    }
    assert!(!is_locked_out(&failures, user));
    assert_eq!(remaining_attempts(&failures, user), 1);

    record_login_failure(&mut failures, user);
    assert!(is_locked_out(&failures, user));
    assert_eq!(remaining_attempts(&failures, user), 0);

    clear_login_failures(&mut failures, user);
}

#[test]
fn login_success_clears_failures() {
    let mut failures = LoginFailures::new();
    let user = "integ_success_user";
    clear_login_failures(&mut failures, user);

    record_login_failure(&mut failures, user);
    record_login_failure(&mut failures, user);
    assert_eq!(remaining_attempts(&failures, user), 3);

    clear_login_failures(&mut failures, user);
    assert!(!is_locked_out(&failures, user));
    assert_eq!(remaining_attempts(&failures, user), 5);
}

#[test]
fn unknown_user_has_full_attempts() {
    let mut failures = LoginFailures::new();
    let user = "integ_unknown_user";
    clear_login_failures(&mut failures, user);
    assert_eq!(remaining_attempts(&failures, user), 5);
    assert!(!is_locked_out(&failures, user));
}

#[test]
fn lockout_window_expires_at_fixed_times() {
    let mut failures = LoginFailures::new();
    let user = "window_user";
    for _ in 0..MAX_LOGIN_ATTEMPTS {
        record_login_failure_at(&mut failures, user, 100);
    }
    assert!(is_locked_out_at(&failures, user, 100));
    assert!(is_locked_out_at(&failures, user, 100 + LOCKOUT_DURATION_SECS - 1));
    assert!(!is_locked_out_at(&failures, user, 100 + LOCKOUT_DURATION_SECS));
    assert_eq!(remaining_attempts_at(&failures, user, 100 + LOCKOUT_DURATION_SECS), MAX_LOGIN_ATTEMPTS);
    // A failure after the window starts a new count.
    record_login_failure_at(&mut failures, user, 100 + LOCKOUT_DURATION_SECS);
    assert_eq!(remaining_attempts_at(&failures, user, 100 + LOCKOUT_DURATION_SECS), MAX_LOGIN_ATTEMPTS - 1);
    assert!(!is_locked_out_at(&failures, user, 100 + LOCKOUT_DURATION_SECS));
}

#[test]
fn failures_of_one_user_leave_others_alone() {
    let mut failures = LoginFailures::new();
    for _ in 0..MAX_LOGIN_ATTEMPTS {
        record_login_failure_at(&mut failures, "a", 0);
    }
    assert!(is_locked_out_at(&failures, "a", 1));
    assert!(!is_locked_out_at(&failures, "b", 1));
    assert_eq!(remaining_attempts_at(&failures, "b", 1), MAX_LOGIN_ATTEMPTS);
}

#[test]
fn lock_lasts_from_the_failure_that_reached_the_limit() {
    let mut failures = LoginFailures::new();
    let user = "spread_user";
    for t in [0u64, 100, 200, 250, 299] {
        record_login_failure_at(&mut failures, user, t);
    }
    assert!(is_locked_out_at(&failures, user, 299));
    assert!(is_locked_out_at(&failures, user, 400));
    assert!(is_locked_out_at(&failures, user, 598));
    assert_eq!(remaining_attempts_at(&failures, user, 400), 0);
    assert!(!is_locked_out_at(&failures, user, 599));
    assert_eq!(remaining_attempts_at(&failures, user, 599), MAX_LOGIN_ATTEMPTS);
}

#[test]
fn counting_window_starts_at_the_first_failure() {
    let mut failures = LoginFailures::new();
    let user = "slow_user";
    for t in [0u64, 100, 200, 299] {
        record_login_failure_at(&mut failures, user, t);
    }
    assert_eq!(remaining_attempts_at(&failures, user, 299), 1);
    // The fifth failure comes after the window: the count starts again.
    record_login_failure_at(&mut failures, user, 300);
    assert!(!is_locked_out_at(&failures, user, 300));
    assert_eq!(remaining_attempts_at(&failures, user, 300), MAX_LOGIN_ATTEMPTS - 1);
}
