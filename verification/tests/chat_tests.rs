use b8t_core::chat::{
    authenticated_user, check_login, check_plugin_request, check_plugin_ws, check_setup_token,
    chronological, existing_account_check, extract_bearer, history_window, message_text,
    new_session, now, password_hash, password_matches, plan_setup_link, plugin_authorized,
    plugin_message,
    random_token, session_token, setup_link_response, socket_step, unix_timestamp,
    ws_session_token, ApiError,
    ChatMessage, LoginRow, Lookup, RequestHeaders, SetupTokenRow, SocketAction, SocketEvent,
    SocketKind, User, BAD_REQUEST, FORBIDDEN, INTERNAL_SERVER_ERROR, SESSION_TTL_SECONDS,
    SETUP_TOKEN_TTL_SECONDS, UNAUTHORIZED,
};
use b8t_core::hashing::hash_secret;

fn error_of<T>(r: Result<T, ApiError>) -> (u16, String) {
    match r {
        Ok(_) => panic!("expected an error"),
        Err(e) => (e.status, e.message),
    }
}

fn headers(auth: Option<&str>, session: Option<&str>, secret: Option<&str>) -> RequestHeaders {
    RequestHeaders {
        authorization: auth.map(|s| s.to_string()),
        session_token: session.map(|s| s.to_string()),
        plugin_secret: secret.map(|s| s.to_string()),
    }
}

fn message(id: i64, source: &str, text: &str) -> ChatMessage {
    ChatMessage {
        id,
        source: source.to_string(),
        uuid: "u".to_string(),
        username: "Steve".to_string(),
        message: text.to_string(),
        created_at: 1000 + id,
    }
}

#[test]
fn error_constructors_and_responses() {
    let e = ApiError::bad_request("Nope");
    assert_eq!((e.status, e.message.as_str()), (400, "Nope"));
    assert_eq!(ApiError::unauthorized("x").status, UNAUTHORIZED);
    assert_eq!(ApiError::forbidden("x").status, FORBIDDEN);
    assert_eq!(ApiError::internal("x").status, INTERNAL_SERVER_ERROR);
    assert_eq!(ApiError::new(429, "slow").status, 429);
    let (status, body) = ApiError::new(404, "Not here").into_response();
    assert_eq!(status, 404);
    assert!(!body.success);
    assert!(body.data.is_none());
    assert_eq!(body.error, Some("Not here".to_string()));
}

#[test]
fn bearer_tokens() {
    assert_eq!(extract_bearer(&headers(Some("Bearer abc"), None, None)), Some("abc".to_string()));
    assert_eq!(extract_bearer(&headers(Some("Bearer "), None, None)), Some(String::new()));
    assert_eq!(
        extract_bearer(&headers(Some("Basic xyz"), Some("tok"), None)),
        Some("tok".to_string())
    );
    assert_eq!(extract_bearer(&headers(Some("bearer abc"), None, None)), None);
    assert_eq!(extract_bearer(&headers(None, Some("tok"), None)), Some("tok".to_string()));
    assert_eq!(extract_bearer(&headers(None, None, None)), None);
    assert_eq!(session_token(&headers(Some("Bearer t1"), None, None)).ok(), Some("t1".to_string()));
    assert_eq!(
        error_of(session_token(&headers(None, None, None))),
        (401, "Missing session token".to_string())
    );
}

#[test]
fn plugin_secrets() {
    assert!(plugin_authorized(&headers(None, None, Some("s3cret")), "s3cret"));
    assert!(!plugin_authorized(&headers(None, None, Some("wrong")), "s3cret"));
    assert!(!plugin_authorized(&headers(None, None, None), "s3cret"));

    let ok = headers(None, None, Some("s3cret"));
    let uuid = "5b3a39be-24cc-3861-b90a-619502c73562";
    assert!(check_plugin_request(&ok, "s3cret", uuid, "Steve").is_ok());
    assert_eq!(
        error_of(check_plugin_request(&headers(None, None, Some("x")), "s3cret", uuid, "Steve")),
        (403, "Invalid plugin secret".to_string())
    );
    assert_eq!(
        error_of(check_plugin_request(&ok, "s3cret", "not a uuid", "Steve")),
        (400, "Invalid player identity".to_string())
    );
    assert_eq!(
        error_of(check_plugin_request(&ok, "s3cret", uuid, "bad name")),
        (400, "Invalid player identity".to_string())
    );

    assert!(check_plugin_ws(Some("s3cret"), "s3cret").is_ok());
    assert_eq!(
        error_of(check_plugin_ws(Some("nope"), "s3cret")),
        (403, "Invalid plugin secret".to_string())
    );
    assert_eq!(
        error_of(check_plugin_ws(None, "s3cret")),
        (403, "Missing plugin secret".to_string())
    );
    assert_eq!(ws_session_token(Some("abc")).ok(), Some("abc".to_string()));
    assert_eq!(error_of(ws_session_token(None)), (401, "Missing session token".to_string()));
}

#[test]
fn session_users() {
    let user = User {
        uuid: "u".to_string(),
        username: "Steve".to_string(),
        username_lower: "steve".to_string(),
        disabled: 0,
    };
    assert_eq!(authenticated_user(Lookup::Found(user)).ok().map(|u| u.username), Some("Steve".to_string()));
    assert_eq!(
        error_of(authenticated_user(Lookup::Missing)),
        (401, "Invalid or expired session".to_string())
    );
    assert_eq!(error_of(authenticated_user(Lookup::Failed)), (500, "Database error".to_string()));
}

#[test]
fn message_texts() {
    assert_eq!(message_text("  hi  ").ok(), Some("hi".to_string()));
    assert_eq!(error_of(message_text(" \u{7} ")), (400, "Message is empty".to_string()));
}

#[test]
fn random_tokens() {
    for len in [0usize, 1, 48, 64] {
        let t = random_token(len);
        assert_eq!(t.len(), len);
        assert!(t.chars().all(|c| c.is_ascii_alphanumeric()));
    }
}

#[test]
fn passwords() {
    assert_eq!(
        error_of(password_hash("short")),
        (400, "Password must be 8-128 characters".to_string())
    );
    assert_eq!(
        error_of(password_hash(&"x".repeat(129))),
        (400, "Password must be 8-128 characters".to_string())
    );
    // Seven two-byte characters are fourteen bytes: long enough.
    let h = password_hash("ééééééé").ok().unwrap();
    assert!(password_matches("ééééééé", &h));
    let h = password_hash("correct horse").ok().unwrap();
    assert!(h.starts_with("$argon2"));
    assert!(password_matches("correct horse", &h));
    assert!(!password_matches("wrong horse", &h));
    assert!(!password_matches("correct horse", "not a phc string"));
}

#[test]
fn sessions() {
    let s = new_session("uuid-1", 1_000);
    assert_eq!(s.token.len(), 64);
    assert!(s.token.chars().all(|c| c.is_ascii_alphanumeric()));
    assert_eq!(s.token_hash, hash_secret(&s.token));
    assert_eq!(s.uuid, "uuid-1");
    assert_eq!(s.created_at, 1_000);
    assert_eq!(s.expires_at, 1_000 + SESSION_TTL_SECONDS);
    assert_eq!(SESSION_TTL_SECONDS, 30 * 24 * 60 * 60);
}

#[test]
fn setup_links() {
    let plan = plan_setup_link("  Steve ", None, 5_000);
    assert_eq!(plan.token.len(), 48);
    assert_eq!(plan.token_hash, hash_secret(&plan.token));
    assert_eq!(plan.expires_at, 5_000 + SETUP_TOKEN_TTL_SECONDS);
    assert_eq!(SETUP_TOKEN_TTL_SECONDS, 900);
    assert_eq!(plan.username, "Steve");
    assert_eq!(plan.username_lower, "steve");
    assert!(!plan.reset);
    assert!(plan_setup_link("Steve", Some(true), 0).reset);
    assert!(!plan_setup_link("Steve", Some(false), 0).reset);

    assert!(existing_account_check(Lookup::Missing).is_ok());
    assert_eq!(
        error_of(existing_account_check(Lookup::Found("u".to_string()))),
        (400, "Account already exists. Use /chatbridge reset.".to_string())
    );
    assert_eq!(
        error_of(existing_account_check(Lookup::Failed)),
        (500, "Database error".to_string())
    );

    let r = setup_link_response("https://www.8b8t.me//", "tok", 77);
    assert_eq!(r.setup_url, "https://www.8b8t.me/chat.html?setup=tok");
    assert_eq!(r.expires_at, 77);
}

fn token_row(used_at: Option<i64>, expires_at: i64) -> SetupTokenRow {
    SetupTokenRow {
        uuid: "u".to_string(),
        username: "Steve".to_string(),
        username_lower: "steve".to_string(),
        expires_at,
        used_at,
    }
}

#[test]
fn setup_tokens_are_single_use_and_expire() {
    assert_eq!(check_setup_token(Lookup::Found(token_row(None, 200)), 100).ok().map(|r| r.uuid), Some("u".to_string()));
    assert_eq!(
        error_of(check_setup_token(Lookup::Found(token_row(Some(50), 200)), 100)),
        (400, "Setup link has already been used".to_string())
    );
    assert_eq!(
        error_of(check_setup_token(Lookup::Found(token_row(None, 100)), 100)),
        (400, "Setup link has expired".to_string())
    );
    assert_eq!(
        error_of(check_setup_token(Lookup::Missing, 100)),
        (400, "Invalid setup link".to_string())
    );
    assert_eq!(error_of(check_setup_token(Lookup::Failed, 100)), (500, "Database error".to_string()));
}

#[test]
fn logins() {
    let hash = password_hash("hunter2hunter2").ok().unwrap();
    let row = |disabled: i64| LoginRow {
        uuid: "u".to_string(),
        username: "Steve".to_string(),
        password_hash: hash.clone(),
        disabled,
    };
    assert_eq!(check_login(Lookup::Found(row(0)), "hunter2hunter2").ok().map(|r| r.username), Some("Steve".to_string()));
    let invalid = (401, "Invalid username or password".to_string());
    assert_eq!(error_of(check_login(Lookup::Found(row(0)), "wrong-password")), invalid);
    assert_eq!(error_of(check_login(Lookup::Found(row(1)), "hunter2hunter2")), invalid);
    assert_eq!(error_of(check_login(Lookup::Missing, "hunter2hunter2")), invalid);
    assert_eq!(error_of(check_login(Lookup::Failed, "x")), (500, "Database error".to_string()));
}

#[test]
fn history_windows() {
    assert_eq!(history_window(None, None), (100, i64::MAX));
    assert_eq!(history_window(Some("50"), Some("1234")), (50, 1234));
    assert_eq!(history_window(Some("0"), None), (1, i64::MAX));
    assert_eq!(history_window(Some("-5"), None), (1, i64::MAX));
    assert_eq!(history_window(Some("1000"), None), (200, i64::MAX));
    assert_eq!(history_window(Some("abc"), Some("x")), (100, i64::MAX));
}

#[test]
fn history_is_put_in_writing_order() {
    let newest_first = vec![message(3, "website", "c"), message(2, "minecraft", "b"), message(1, "website", "a")];
    let ordered = chronological(newest_first);
    let ids: Vec<i64> = ordered.iter().map(|m| m.id).collect();
    assert_eq!(ids, vec![1, 2, 3]);
    assert!(chronological(Vec::new()).is_empty());
}

#[test]
fn socket_relay() {
    let from_web = message(1, "website", "hi");
    let from_game = message(2, "minecraft", "hello");
    assert!(matches!(
        socket_step(SocketKind::Website, SocketEvent::Broadcast(from_game)),
        SocketAction::Forward(m) if m.id == 2
    ));
    assert!(matches!(
        socket_step(SocketKind::Plugin, SocketEvent::Broadcast(message(2, "minecraft", "x"))),
        SocketAction::Continue
    ));
    assert!(matches!(
        socket_step(SocketKind::Plugin, SocketEvent::Broadcast(from_web)),
        SocketAction::Forward(m) if m.id == 1
    ));
    assert!(matches!(
        socket_step(SocketKind::Website, SocketEvent::ClientPing(vec![1, 2])),
        SocketAction::Pong(p) if p == vec![1, 2]
    ));
    assert!(matches!(socket_step(SocketKind::Website, SocketEvent::Lagged), SocketAction::Continue));
    assert!(matches!(socket_step(SocketKind::Plugin, SocketEvent::ClientOther), SocketAction::Continue));
    for ev in [
        SocketEvent::ChannelClosed,
        SocketEvent::ForwardFailed,
        SocketEvent::ClientClose,
        SocketEvent::ClientGone,
        SocketEvent::ClientError,
    ] {
        assert!(matches!(socket_step(SocketKind::Website, ev), SocketAction::Stop));
    }
}

#[test]
fn clock_reads_after_the_epoch() {
    assert!(now() > 1_600_000_000);
}

#[test]
fn clock_readings_become_timestamps() {
    assert_eq!(unix_timestamp(Some(1_700_000_000)), 1_700_000_000);
    assert_eq!(unix_timestamp(None), 0);
    assert_eq!(unix_timestamp(Some(u64::MAX)), -1);
}

#[test]
fn plugin_messages() {
    let ok = headers(None, None, Some("s3cret"));
    let uuid = "5b3a39be-24cc-3861-b90a-619502c73562";
    match plugin_message(&ok, "s3cret", uuid, "  Steve ", " hello\u{7} ") {
        Ok(m) => {
            assert_eq!(m.source, "minecraft");
            assert_eq!(m.uuid, uuid);
            assert_eq!(m.username, "Steve");
            assert_eq!(m.message, "hello");
        }
        Err(_) => panic!("expected a message"),
    }
    assert_eq!(
        error_of(plugin_message(&headers(None, None, None), "s3cret", uuid, "Steve", "hi")),
        (403, "Invalid plugin secret".to_string())
    );
    assert_eq!(
        error_of(plugin_message(&ok, "s3cret", "x y", "Steve", "hi")),
        (400, "Invalid player identity".to_string())
    );
    assert_eq!(
        error_of(plugin_message(&ok, "s3cret", uuid, "Steve", " \u{1} ")),
        (400, "Message is empty".to_string())
    );
}

#[test]
fn passwords_of_allowed_length_are_always_hashed() {
    for len in [8usize, 9, 64, 128] {
        let p = "p".repeat(len);
        let h = password_hash(&p).ok().expect("hashed");
        assert!(password_matches(&p, &h));
    }
}
