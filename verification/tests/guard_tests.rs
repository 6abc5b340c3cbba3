use b8t_core::chat::ApiError;
use b8t_core::guard::{
    captcha_token, captcha_verdict, check_links, flag_setting, fresh_record, guard_config,
    number_setting, pattern_setting, rate_check, rate_limited_error, ChatGuardConfig, RateDecision,
};

fn defaults() -> ChatGuardConfig {
    guard_config(None, None, None, None, None, None, None, None, None, None)
}

fn error_of<T>(r: Result<T, ApiError>) -> (u16, String) {
    match r {
        Ok(_) => panic!("expected an error"),
        Err(e) => (e.status, e.message),
    }
}

fn retry_after(d: RateDecision) -> Option<i64> {
    match d {
        RateDecision::Accept => None,
        RateDecision::Limited { retry_after } => Some(retry_after),
    }
}

#[test]
fn documented_defaults() {
    let c = defaults();
    assert!(!c.hcaptcha_enabled);
    assert!(c.rate_limit_enabled);
    assert_eq!(c.rate_window_seconds, 10);
    assert_eq!(c.rate_max_messages, 5);
    assert_eq!(c.short_limit_seconds, 60);
    assert_eq!(c.long_limit_seconds, 600);
    assert_eq!(c.long_after_violations, 2);
    assert_eq!(c.violation_reset_seconds, 3600);
    assert!(!c.allow_links);
    assert_eq!(
        c.blocked_link_patterns,
        vec!["http://", "https://", "www.", "discord.gg", ".com", ".net", ".org", ".me", ".gg", ".io"]
    );
}

#[test]
fn settings_from_the_environment() {
    let c = guard_config(
        Some("true"),
        Some("false"),
        Some("30"),
        Some("3"),
        Some("15"),
        Some("120"),
        Some("4"),
        Some("60"),
        Some("true"),
        Some(" Foo.COM , ,bar "),
    );
    assert!(c.hcaptcha_enabled);
    assert!(!c.rate_limit_enabled);
    assert_eq!(c.rate_window_seconds, 30);
    assert_eq!(c.rate_max_messages, 3);
    assert_eq!(c.short_limit_seconds, 15);
    assert_eq!(c.long_limit_seconds, 120);
    assert_eq!(c.long_after_violations, 4);
    assert_eq!(c.violation_reset_seconds, 60);
    assert!(c.allow_links);
    assert_eq!(c.blocked_link_patterns, vec!["foo.com", "bar"]);

    assert!(flag_setting(Some("yes"), true));
    assert!(!flag_setting(Some("TRUE"), false));
    assert_eq!(number_setting(Some("abc"), 10), 10);
    assert_eq!(number_setting(Some("-1"), 10), 10);
    assert_eq!(number_setting(Some("+7"), 10), 7);
    assert_eq!(number_setting(Some("1099511627777"), 10), 10);
    assert_eq!(number_setting(Some("1099511627776"), 10), 1099511627776);
    assert_eq!(pattern_setting(""), Vec::<String>::new());
    assert_eq!(pattern_setting("a,b"), vec!["a", "b"]);
}

#[test]
fn captcha_gate() {
    assert_eq!(captcha_token(false, None).ok(), Some(None));
    assert_eq!(captcha_token(false, Some("t")).ok(), Some(None));
    assert_eq!(captcha_token(true, Some("t")).ok(), Some(Some("t".to_string())));
    assert_eq!(
        error_of(captcha_token(true, None)),
        (401, "Captcha verification required".to_string())
    );
    assert!(captcha_verdict(true).is_ok());
    assert_eq!(error_of(captcha_verdict(false)), (403, "Captcha verification failed".to_string()));
}

#[test]
fn links_are_blocked_by_default() {
    let c = defaults();
    let refused = (400, "Links are not allowed in chat".to_string());
    assert_eq!(error_of(check_links(&c, "see https://example.org")), refused);
    assert_eq!(error_of(check_links(&c, "join DISCORD.GG/abc")), refused);
    assert_eq!(error_of(check_links(&c, "WWW.Example")), refused);
    assert_eq!(error_of(check_links(&c, "my site.io")), refused);
    assert!(check_links(&c, "hello there, good game").is_ok());

    let mut open = defaults();
    open.allow_links = true;
    assert!(check_links(&open, "see https://example.org").is_ok());
}

#[test]
fn first_spam_gets_the_short_limit_then_the_long_one() {
    let c = defaults();
    let mut r = fresh_record();
    for t in 0..5 {
        assert!(retry_after(rate_check(&c, &mut r, 1000 + t)).is_none());
    }
    assert_eq!(r.recent.len(), 5);
    // The sixth message inside ten seconds is the first violation.
    assert_eq!(retry_after(rate_check(&c, &mut r, 1005)), Some(60));
    assert_eq!(r.violations, 1);
    assert_eq!(r.limited_until, 1065);
    // During the cool-down everything is refused and nothing changes.
    assert_eq!(retry_after(rate_check(&c, &mut r, 1030)), Some(35));
    assert_eq!(r.limited_until, 1065);
    assert_eq!(r.violations, 1);
    // After it, spam again: the second violation brings the long limit.
    for t in 0..5 {
        assert!(retry_after(rate_check(&c, &mut r, 1065 + t)).is_none());
    }
    assert_eq!(retry_after(rate_check(&c, &mut r, 1070)), Some(600));
    assert_eq!(r.violations, 2);
    assert_eq!(r.limited_until, 1670);
    // Further spam keeps the long limit.
    for t in 0..5 {
        assert!(retry_after(rate_check(&c, &mut r, 1670 + t)).is_none());
    }
    assert_eq!(retry_after(rate_check(&c, &mut r, 1675)), Some(600));
}

#[test]
fn old_violations_are_forgotten_after_a_quiet_hour() {
    let c = defaults();
    let mut r = fresh_record();
    for t in 0..6 {
        rate_check(&c, &mut r, 100 + t);
    }
    assert_eq!(r.violations, 1);
    assert_eq!(r.last_violation, 105);
    let later = 105 + 3600;
    for t in 0..5 {
        assert!(retry_after(rate_check(&c, &mut r, later + t)).is_none());
    }
    assert_eq!(r.violations, 0);
    assert_eq!(retry_after(rate_check(&c, &mut r, later + 5)), Some(60));
    assert_eq!(r.violations, 1);
}

#[test]
fn messages_leave_the_window() {
    let c = defaults();
    let mut r = fresh_record();
    for t in 0..5 {
        rate_check(&c, &mut r, t);
    }
    // Ten seconds after the first message, it no longer counts.
    assert!(retry_after(rate_check(&c, &mut r, 10)).is_none());
    assert_eq!(r.recent, vec![1, 2, 3, 4, 10]);
}

#[test]
fn disabled_limiter_accepts_everything() {
    let mut c = defaults();
    c.rate_limit_enabled = false;
    let mut r = fresh_record();
    for _ in 0..100 {
        assert!(retry_after(rate_check(&c, &mut r, 5)).is_none());
    }
    assert!(r.recent.is_empty());
}

#[test]
fn rate_limited_answer() {
    let e = rate_limited_error(60);
    assert_eq!(e.status, 429);
    assert_eq!(e.message, "You are sending messages too quickly. Try again later.");
}
