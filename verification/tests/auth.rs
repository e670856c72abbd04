//! Who may use the panel.
use accessible_obs::address::{loopback, read_address};
use accessible_obs::auth::{
    auth_login, auth_status, cookie, framing_headers, is_auth, load_session_secret, logout_cookie, open_session,
    origin_is_trusted, require_auth, session_cookie, signed_answer, stream_goes_on, Guards,
    Header, Headers, LoginGuard, LoginOutcome, StoredSession, LOGIN_BLOCK_MS, MAX_LOGIN_FAILURES, SESSION_ABSOLUTE_TTL_SECS,
    SESSION_IDLE_TTL_SECS,
};
use accessible_obs::config::RuntimeMode;
use accessible_obs::json::Json;
use accessible_obs::loopback_request_ok;
use accessible_obs::secrets::secret_eq;

fn no_headers() -> Headers {
    Headers {
        origin: Header::Absent,
        host: Header::Absent,
        cookie: Header::Absent,
    }
}

fn headers_with_cookie(value: &str) -> Headers {
    Headers {
        cookie: Header::Text(value.into()),
        ..no_headers()
    }
}

fn with_header(name: &str, value: &str) -> Headers {
    match name {
        "origin" => Headers {
            origin: Header::Text(value.into()),
            ..no_headers()
        },
        _ => Headers {
            host: Header::Text(value.into()),
            ..no_headers()
        },
    }
}

#[test]
fn host_agent_cookie_parses_target_among_many() {
    let h = headers_with_cookie("a=1; rsc_session=token-value; b=2");
    assert_eq!(cookie(&h, "rsc_session").as_deref(), Some("token-value"));
}

#[test]
fn host_agent_cookie_absent_returns_none() {
    let h = headers_with_cookie("other=1");
    assert!(cookie(&h, "rsc_session").is_none());
}

#[test]
fn auth_cookie_parses_target_among_many() {
    let h = headers_with_cookie("a=1; aobs_session=token-value; b=2");
    assert_eq!(cookie(&h, "aobs_session").as_deref(), Some("token-value"));
}

#[test]
fn auth_cookie_absent_returns_none() {
    let h = headers_with_cookie("other=1");
    assert!(cookie(&h, "aobs_session").is_none());
}

#[test]
fn host_agent_secret_eq_rejects_different_lengths_and_values() {
    assert!(secret_eq("abcdef", "abcdef"));
    assert!(!secret_eq("abcdef", "abcdeg"));
    assert!(!secret_eq("abcdef", "abcde"));
    assert!(!secret_eq("", "x"));
}

#[test]
fn auth_secret_eq_rejects_different_lengths_and_values() {
    assert!(secret_eq("abcdef", "abcdef"));
    assert!(!secret_eq("abcdef", "abcdeg"));
    assert!(!secret_eq("abcdef", "abcde"));
    assert!(!secret_eq("", "x"));
}

fn session_expires() {
    let mut s = StoredSession::new("token".into(), 1_000);
    assert!(!s.expired(1_000 + SESSION_IDLE_TTL_SECS - 1));
    assert!(s.expired(1_000 + SESSION_IDLE_TTL_SECS + 1));

    s.touch(2_000);
    assert!(!s.expired(2_000 + SESSION_IDLE_TTL_SECS - 1));
    assert!(s.expired(1_000 + SESSION_ABSOLUTE_TTL_SECS + 1));
}

#[test]
fn host_agent_stored_session_expires_by_idle_and_absolute_ttl() {
    session_expires();
}

#[test]
fn main_stored_session_expires_by_idle_and_absolute_ttl() {
    session_expires();
}

fn guard_blocks() {
    let now = 7_000;
    let mut g = LoginGuard::default();
    for _ in 0..(MAX_LOGIN_FAILURES - 1) {
        g.record_failure(now);
        assert!(g.blocked_for(now).is_none());
    }
    g.record_failure(now);
    let left = g.blocked_for(now).expect("блокировка включилась");
    assert!(left <= LOGIN_BLOCK_MS);
}

#[test]
fn host_agent_login_guard_blocks_after_repeated_failures() {
    guard_blocks();
}

#[test]
fn auth_login_guard_blocks_after_repeated_failures() {
    guard_blocks();
}

fn guard_resets() {
    let now = 7_000;
    let mut g = LoginGuard::default();
    g.record_failure(now);
    g.record_failure(now);
    g.record_success();
    assert!(g.blocked_for(now).is_none());
    assert_eq!(g.failures, 0);
}

#[test]
fn host_agent_login_guard_resets_after_success() {
    guard_resets();
}

#[test]
fn auth_login_guard_resets_after_success() {
    guard_resets();
}

#[test]
fn panel_origin_is_trusted() {
    assert!(origin_is_trusted(&with_header(
        "origin",
        "http://127.0.0.1:8787"
    )));
    assert!(origin_is_trusted(&with_header(
        "origin",
        "http://localhost:8787"
    )));
    assert!(origin_is_trusted(&with_header(
        "origin",
        "http://[::1]:8787"
    )));
}

#[test]
fn foreign_site_cannot_drive_local_mode() {
    assert!(!origin_is_trusted(&with_header(
        "origin",
        "https://evil.example"
    )));
    assert!(!origin_is_trusted(&with_header(
        "origin",
        "http://192.168.1.50"
    )));
    assert!(!origin_is_trusted(&with_header("origin", "null")));
    assert!(!origin_is_trusted(&with_header(
        "origin",
        "http://localhost.evil.example"
    )));
}

#[test]
fn dns_rebinding_is_rejected_by_host() {
    assert!(!origin_is_trusted(&with_header(
        "host",
        "evil.example:8787"
    )));
    assert!(origin_is_trusted(&with_header("host", "127.0.0.1:8787")));
}

#[test]
fn request_without_recognisable_origin_is_refused() {
    assert!(!origin_is_trusted(&no_headers()));
}

#[test]
fn an_unreadable_origin_is_not_trusted() {
    let h = Headers {
        origin: Header::Unreadable,
        host: Header::Text("127.0.0.1:8787".into()),
        cookie: Header::Absent,
    };
    assert!(!origin_is_trusted(&h));
}

#[test]
fn addresses_of_this_computer_are_recognised() {
    for s in ["127.0.0.1", "127.255.3.4", "::1", "0:0:0:0:0:0:0:1", "::0.0.0.1"] {
        assert!(loopback(s), "{s}");
        assert!(read_address(s), "{s}");
    }
    for s in ["128.0.0.1", "::2", "fe80::1", "100.64.0.5"] {
        assert!(!loopback(s), "{s}");
        assert!(read_address(s), "{s}");
    }
    for s in ["127.0.0.01", "127.0.1", "", ":::1", "1:2:3", "localhost", "256.1.1.1", "1::2::3"] {
        assert!(!read_address(s), "{s}");
    }
}

#[test]
fn a_request_is_judged_by_origin_before_host() {
    assert!(loopback_request_ok(Some("http://127.0.0.1:1"), Some("evil.example")));
    assert!(!loopback_request_ok(Some("https://evil.example"), Some("127.0.0.1:1")));
    assert!(loopback_request_ok(None, Some("localhost:8787")));
    assert!(!loopback_request_ok(None, None));
}

#[test]
fn a_session_is_restored_until_it_is_over() {
    let session = StoredSession::new("token".into(), 1_000);
    let text = session.to_text();
    assert_eq!(
        text,
        r#"{"token":"token","created_at":1000,"last_seen":1000}"#
    );

    let again = load_session_secret(Some(text.clone()), 1_500);
    let restored = again.session.unwrap();
    assert_eq!(restored.token, "token");
    assert_eq!(restored.created_at, 1_000);
    assert!(!again.delete);

    let late = load_session_secret(Some(text), 1_000 + SESSION_IDLE_TTL_SECS + 1);
    assert!(late.session.is_none());
    assert!(late.delete);

    // A bare token without times is not kept forever.
    let bare = load_session_secret(Some("\"token\"".into()), 1_000);
    assert!(bare.session.is_none());
    assert!(bare.delete);

    let none = load_session_secret(None, 1_000);
    assert!(none.session.is_none());
    assert!(!none.delete);
}

#[test]
fn remote_mode_needs_the_token_of_a_living_session() {
    let mut session = Some(StoredSession::new("abc".into(), 1_000));
    let good = headers_with_cookie("aobs_session=abc");
    let bad = headers_with_cookie("aobs_session=abd");
    assert!(is_auth(RuntimeMode::Remote, &good, &mut session, 1_001).allowed);
    assert_eq!(session.as_ref().unwrap().last_seen, 1_001);
    assert!(!is_auth(RuntimeMode::Remote, &bad, &mut session, 1_002).allowed);
    let over = is_auth(
        RuntimeMode::Remote,
        &good,
        &mut session,
        1_001 + SESSION_IDLE_TTL_SECS + 1,
    );
    assert!(!over.allowed);
    assert!(over.forget);
    assert!(session.is_none());
    assert!(!is_auth(RuntimeMode::Remote, &good, &mut session, 1_003).allowed);
}

#[test]
fn local_mode_goes_by_the_origin_alone() {
    let mut session = None;
    let own = with_header("origin", "http://127.0.0.1:8787");
    let foreign = with_header("origin", "https://evil.example");
    assert!(is_auth(RuntimeMode::Local, &own, &mut session, 5).allowed);
    assert!(!is_auth(RuntimeMode::Local, &foreign, &mut session, 5).allowed);
}

#[test]
fn every_outcome_of_a_login_can_be_reached() {
    let mut guards = Guards::new();
    let code = Json::parse(r#"{"secret":" secret "}"#).unwrap();
    let wrong = Json::parse(r#"{"secret":"other"}"#).unwrap();
    let none = Json::parse("{}").unwrap();

    let local = auth_login(RuntimeMode::Local, &mut guards, "a", &none, None, 0);
    assert!(matches!(local, LoginOutcome::Local));
    assert_eq!(local.status(), 200);

    let no_code = auth_login(RuntimeMode::Remote, &mut guards, "a", &none, Some("secret"), 0);
    assert!(matches!(no_code, LoginOutcome::NoCode(_)));
    assert_eq!(no_code.status(), 400);

    let unpaired = auth_login(RuntimeMode::Remote, &mut guards, "a", &code, None, 0);
    assert!(matches!(unpaired, LoginOutcome::NotPaired(_)));

    let granted = auth_login(RuntimeMode::Remote, &mut guards, "a", &code, Some("secret"), 0);
    assert!(matches!(granted, LoginOutcome::Granted));

    for _ in 0..MAX_LOGIN_FAILURES {
        let r = auth_login(RuntimeMode::Remote, &mut guards, "b", &wrong, Some("secret"), 0);
        assert!(matches!(r, LoginOutcome::WrongCode(_)));
        assert_eq!(r.status(), 401);
    }
    let blocked = auth_login(RuntimeMode::Remote, &mut guards, "b", &code, Some("secret"), 1);
    assert!(matches!(blocked, LoginOutcome::Blocked(_)));
    assert_eq!(blocked.status(), 429);
    // Another peer is not affected, and the block ends.
    let other = auth_login(RuntimeMode::Remote, &mut guards, "a", &code, Some("secret"), 1);
    assert!(matches!(other, LoginOutcome::Granted));
    let later = auth_login(
        RuntimeMode::Remote,
        &mut guards,
        "b",
        &code,
        Some("secret"),
        LOGIN_BLOCK_MS + 1,
    );
    assert!(matches!(later, LoginOutcome::Granted));
}

#[test]
fn the_cookie_gives_the_token_back() {
    let session = open_session(9);
    assert_eq!(session.token.len(), 43);
    assert_eq!(session.created_at, 9);
    let set = session_cookie(&session);
    assert!(set.ends_with("; Path=/; HttpOnly; SameSite=Lax"));
    let h = headers_with_cookie(set.split(';').next().unwrap());
    assert_eq!(cookie(&h, "aobs_session"), Some(session.token));
    assert_ne!(open_session(9).token, open_session(9).token);
    assert_eq!(
        logout_cookie(),
        "aobs_session=; Path=/; HttpOnly; SameSite=Lax; Max-Age=0"
    );
}

#[test]
fn the_status_says_what_is_needed() {
    let local = auth_status(RuntimeMode::Local, false, true);
    assert_eq!(local.get_str("mode"), Some("local"));
    let remote = auth_status(RuntimeMode::Remote, true, false);
    assert_eq!(remote.get_bool("authenticated"), Some(false));
}

#[test]
fn requests_are_turned_away_and_signing_is_answered() {
    assert!(require_auth(true).is_ok());
    let e = require_auth(false).unwrap_err();
    assert_eq!(e.status, 401);
    assert_eq!(
        e.body().to_text(),
        r#"{"error":{"message":"Требуется pairing-код Accessible OBS."}}"#
    );
    assert_eq!(signed_answer(RuntimeMode::Remote).to_text(), r#"{"ok":true}"#);
    assert_eq!(
        signed_answer(RuntimeMode::Local).to_text(),
        r#"{"mode":"local","ok":true}"#
    );
}

#[test]
fn a_stream_ends_with_the_session_it_was_opened_with() {
    let session = Some(StoredSession::new("t1".into(), 100));
    assert!(stream_goes_on(RuntimeMode::Remote, "t1", &session, 100));
    let newer = Some(StoredSession::new("t2".into(), 200));
    assert!(!stream_goes_on(RuntimeMode::Remote, "t1", &newer, 200));
    assert!(!stream_goes_on(RuntimeMode::Remote, "t1", &None, 200));
    let late = 100 + SESSION_IDLE_TTL_SECS + 1;
    assert!(!stream_goes_on(RuntimeMode::Remote, "t1", &session, late));
    assert!(stream_goes_on(RuntimeMode::Local, "", &None, late));
}

#[test]
fn no_page_may_be_embedded() {
    assert_eq!(
        framing_headers(),
        [
            ("content-security-policy", "frame-ancestors 'none'"),
            ("x-frame-options", "DENY"),
        ]
    );
}

#[test]
fn failures_count_whenever_they_come() {
    let mut g = LoginGuard::default();
    for now in [10u64, 5_000, 90_000, 90_000] {
        g.record_failure(now);
        assert_eq!(g.blocked_for(now), None);
    }
    g.record_failure(200_000);
    assert_eq!(g.blocked_for(200_000), Some(LOGIN_BLOCK_MS));
    assert_eq!(g.blocked_for(200_000 + LOGIN_BLOCK_MS), Some(0));
    assert_eq!(g.blocked_for(200_001 + LOGIN_BLOCK_MS), None);
}
