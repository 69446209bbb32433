use signaling_server::config::{Config, EnvVars};
use signaling_server::discord::{announce, notify_lfg, notify_matched, Notice};
use signaling_server::error::AppError;
use signaling_server::ids::{code_from_simple, new_lobby_code};
use signaling_server::incidents::truncate_field;
use signaling_server::ranking::text_before;
use signaling_server::state::AppState;
use signaling_server::time::Timestamp;
use signaling_server::turn::{
    clock_second, hex_decode, hex_encode, hex_nibble, mint_credentials, mint_credentials_at,
};

fn vars() -> EnvVars {
    EnvVars {
        discord_client_id: Some("client".into()),
        discord_client_secret: Some("hush".into()),
        discord_webhook_url: None,
        discord_redirect_uri: None,
        jwt_secret: Some("signing".into()),
        turn_server_ip: None,
        turn_shared_secret: None,
        turn_realm: None,
        stats_service_url: None,
        stats_api_key: None,
        github_issues_repo: None,
        github_issues_token: None,
    }
}

#[test]
fn configuration_comes_from_the_environment() {
    let config = Config::from_env(vars()).unwrap();
    assert_eq!(config.discord_client_id, "client");
    assert_eq!(config.discord_redirect_uri, "http://localhost:8080/auth/discord/callback");
    assert_eq!(config.turn_realm, "example.com");
    assert!(!config.turn_enabled());
    let full = EnvVars {
        turn_server_ip: Some("203.0.113.9".into()),
        turn_shared_secret: Some("00ff".into()),
        discord_redirect_uri: Some("https://x/cb".into()),
        ..vars()
    };
    let config = Config::from_env(full).unwrap();
    assert!(config.turn_enabled());
    assert_eq!(config.discord_redirect_uri, "https://x/cb");
}

#[test]
fn what_the_environment_lacks_is_named() {
    let lack = |v: EnvVars| Config::from_env(v).err().unwrap();
    assert!(lack(EnvVars { discord_client_id: None, ..vars() }).contains("DISCORD_CLIENT_ID"));
    assert!(
        lack(EnvVars { discord_client_secret: None, ..vars() }).contains("DISCORD_CLIENT_SECRET")
    );
    assert!(lack(EnvVars { jwt_secret: None, ..vars() }).contains("JWT_SECRET"));
}

#[test]
fn a_fresh_state_is_empty() {
    let state = AppState::new(Config::from_env(vars()).unwrap());
    assert!(state.queue.is_empty());
    assert!(state.player_sessions.is_empty());
    assert!(state.pending_results.is_empty());
    assert!(state.confirmed_results.is_empty());
    assert!(state.spar_rooms.is_empty());
    assert!(state.lobby_presence.is_empty());
    assert!(state.lobby_chat.is_empty());
    assert!(state.challenges.is_empty());
    assert!(state.spectator_frames.is_empty());
    assert!(state.oauth_states.is_empty());
    assert!(state.ratings.is_empty());
    assert!(state.koh_lobbies.is_empty());
    assert!(state.lobby_thumbs.is_empty());
}

#[test]
fn errors_have_a_status_and_a_message() {
    let e = AppError::unauthorized("who are you");
    assert_eq!((e.status_code(), e.message(), e.describe()), (401, "who are you".to_string(), "Unauthorized: who are you".to_string()));
    let e = AppError::not_found("gone");
    assert_eq!((e.status_code(), e.message(), e.describe()), (404, "gone".to_string(), "Not found: gone".to_string()));
    let e = AppError::bad_request("odd");
    assert_eq!((e.status_code(), e.message(), e.describe()), (400, "odd".to_string(), "Bad request: odd".to_string()));
    let e = AppError::Internal("disk on fire".into());
    assert_eq!(
        (e.status_code(), e.message(), e.describe()),
        (500, "Internal server error".to_string(), "Internal error: disk on fire".to_string())
    );
}

#[test]
fn relay_credentials_are_signed() {
    let c = mint_credentials_at("Jefe", "203.0.113.9", "room-1", 0, 3600, 1000);
    assert_eq!(c.uri, "relay://203.0.113.9:3478");
    assert_eq!(c.username, "0:4600:room-1");
    assert_eq!(c.password, "e8eb6d0a7340a8ddb0db281feaa59fc5054629e79c4e30df8a1589943929f75e");
    assert_eq!(c.ttl_secs, 3600);
    let hexed = mint_credentials_at(" 4A656665\n", "203.0.113.9", "room-1", 1, 3600, 1000);
    assert_eq!(hexed.username, "1:4600:room-1");
    assert_eq!(hexed.password, "7943b8a4ed018fed85e6aad23786077291d9464fcbe2f844f225def67347003e");
}

#[test]
fn relay_credentials_expire_an_hour_from_now() {
    let before = Timestamp::now().unix_secs();
    let c = mint_credentials("Jefe", "203.0.113.9", "room-1", 1, 3600);
    let after = Timestamp::now().unix_secs();
    let expiry: i64 = c.username.split(':').nth(1).unwrap().parse().unwrap();
    assert!(before + 3600 <= expiry && expiry <= after + 3600);
    assert!(c.username.starts_with("1:") && c.username.ends_with(":room-1"));
    assert_eq!(c.password.len(), 64);
    assert_eq!(clock_second(None, 3600), 0);
    assert_eq!(clock_second(Some(7), 3600), 7);
    assert_eq!(clock_second(Some(20_000_000_000_000), 3600), 20_000_000_000_000);
    assert_eq!(clock_second(Some(u64::MAX), 3600), u64::MAX - 3600);
}

#[test]
fn hexadecimal_goes_both_ways() {
    let bytes: Vec<u8> = (0..=255).collect();
    let text = hex_encode(&bytes);
    assert_eq!(&text[..8], "00010203");
    assert_eq!(hex_decode(&text).unwrap(), bytes);
    assert_eq!(hex_decode(&text.to_uppercase()).unwrap(), bytes);
    assert_eq!(hex_decode("abc"), None);
    assert_eq!(hex_decode("zz"), None);
    assert_eq!(hex_decode("").unwrap(), Vec::<u8>::new());
    assert_eq!(hex_nibble(b'f'), Some(15));
    assert_eq!(hex_nibble(b'A'), Some(10));
    assert_eq!(hex_nibble(b'g'), None);
}

#[test]
fn points_in_time_are_rendered() {
    let t = Timestamp { nanos: 1_700_000_000_123_000_000 };
    assert_eq!(t.rfc3339(), "2023-11-14T22:13:20.123+00:00");
    assert_eq!(t.hour_minute(), "22:13");
    assert_eq!(t.date(), (2023, 11, 14));
    assert_eq!(t.unix_secs(), 1_700_000_000);
    assert_eq!(t.millis_after(2500), 1_700_000_002_623);
    assert_eq!(Timestamp { nanos: -1 }.unix_secs(), -1);
    assert_eq!(Timestamp { nanos: 0 }.rfc3339(), "1970-01-01T00:00:00+00:00");
}

#[test]
fn spans_are_rounded_toward_zero() {
    let t = Timestamp { nanos: 10_000_000_000 };
    assert_eq!(t.secs_since(Timestamp { nanos: 8_000_000_001 }), 1);
    assert_eq!(t.secs_since(Timestamp { nanos: 8_000_000_000 }), 2);
    assert_eq!(t.secs_since(Timestamp { nanos: 11_999_999_999 }), -1);
    assert_eq!(t.later(5), Timestamp { nanos: 15_000_000_000 });
    assert_eq!(Timestamp { nanos: i128::MAX }.later(1), Timestamp { nanos: i128::MAX });
    let ends = (Timestamp { nanos: i128::MIN }, Timestamp { nanos: i128::MAX });
    assert_eq!(ends.0.secs_since(ends.1), i64::MIN);
    assert_eq!(ends.1.secs_since(ends.0), i64::MAX);
}

#[test]
fn times_go_on_after_the_year_2262() {
    let t = Timestamp::from_clock(10_000_000_000, 500_000_000);
    assert_eq!(t.rfc3339(), "2286-11-20T17:46:40.500+00:00");
    assert_eq!(t.unix_secs(), 10_000_000_000);
    assert_eq!(t.millis_after(2500), 10_000_000_003_000);
    assert_eq!(t.hour_minute(), "17:46");
    assert_eq!(t.date(), (2286, 11, 20));
    assert_eq!(t.later(60).secs_since(t), 60);
}

#[test]
fn the_calendar_has_its_ends() {
    assert_eq!(Timestamp { nanos: i128::MAX }.rfc3339(), "+262142-12-31T23:59:59.999999999+00:00");
    assert_eq!(Timestamp { nanos: i128::MAX }.date(), (262142, 12, 31));
    assert_eq!(Timestamp { nanos: i128::MIN }.rfc3339(), "-262143-01-01T00:00:00+00:00");
    assert_eq!(Timestamp { nanos: i128::MIN }.date(), (-262143, 1, 1));
    assert_eq!(Timestamp { nanos: i128::MIN }.hour_minute(), "00:00");
    assert_eq!(Timestamp { nanos: 951_782_400_000_000_000 }.date(), (2000, 2, 29));
    assert_eq!(Timestamp { nanos: -1 }.date(), (1969, 12, 31));
}

#[test]
fn the_clock_runs() {
    assert!(Timestamp::now().nanos > 1_600_000_000_000_000_000);
    assert_eq!(Timestamp::from_clock(2, 7), Timestamp { nanos: 2_000_000_007 });
}

#[test]
fn lobby_codes_are_short_and_typeable() {
    assert_eq!(code_from_simple("0a1b2c3d4e5f"), "0A1B2C");
    let a = new_lobby_code();
    let b = new_lobby_code();
    assert_eq!(a.len(), 6);
    assert!(a.chars().all(|c| c.is_ascii_digit() || ('A'..='F').contains(&c)));
    assert_ne!(a, b);
}

#[test]
fn texts_are_ordered_as_std_orders_them() {
    let texts = ["", "A", "a", "ab", "b", "\u{e9}", "\u{10000}", "\u{ffff}", "zz"];
    for a in texts {
        for b in texts {
            assert_eq!(text_before(a, b), a < b, "{a:?} {b:?}");
        }
    }
}

#[test]
fn notices_are_posted_where_a_webhook_is_configured() {
    let mut config = Config::from_env(vars()).unwrap();
    assert!(notify_lfg(&config, "Jax").is_none());
    config.discord_webhook_url = Some("https://hook".into());
    let post = notify_lfg(&config, "Jax").unwrap();
    assert_eq!(post.url, "https://hook");
    assert_eq!(post.content, "🕹️ **Jax** is looking for a match!");
    assert_eq!(post.username, "Matchmaker");
    let post = notify_matched(&config, "Jax", "Sonya").unwrap();
    assert_eq!(post.content, "⚡ **Jax** vs **Sonya** — match found!");
    let notice = Notice::Matched { first: "Jax".into(), second: "Sonya".into() };
    assert_eq!(announce(&config, &notice).unwrap().content, post.content);
    let notice = Notice::Lfg { username: "Jax".into() };
    assert_eq!(announce(&config, &notice).unwrap().content, "🕹️ **Jax** is looking for a match!");
}

#[test]
fn logs_are_cut_from_the_front() {
    let mut log = "short".to_string();
    truncate_field(&mut log, 5);
    assert_eq!(log, "short");
    let mut log = "0123456789".to_string();
    truncate_field(&mut log, 4);
    assert_eq!(log, "[truncated 6 bytes from front]\n6789");
    let mut log = "aé漢𝄞z".to_string();
    truncate_field(&mut log, 7);
    assert_eq!(log, "[truncated 6 bytes from front]\n𝄞z");
    let mut log = "é".to_string();
    truncate_field(&mut log, 1);
    assert_eq!(log, "[truncated 2 bytes from front]\n");
}
