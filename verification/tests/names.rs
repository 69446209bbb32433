use signaling_server::error::AppError;
use signaling_server::models::{LobbyMatchFormat, SparRoom};
use signaling_server::names::{
    normalize_email, normalize_lobby_chat, sanitize_lobby_name, sanitize_username,
};
use signaling_server::rooms::lobby_room_summary;
use signaling_server::text::{
    begins_with, decimal_text, is_ascii_alphanumeric, is_control, is_white_space,
    padded_decimal_text, signed_decimal_text, trim, trim_char, trim_char_back,
};
use signaling_server::time::Timestamp;

#[test]
fn sanitize_lobby_name_keeps_plain_player_text() {
    assert_eq!(
        sanitize_lobby_name(Some("  Friday FT5!!!  "), "Kitana"),
        "Friday FT5"
    );
    assert_eq!(sanitize_lobby_name(Some("!!!"), "Kitana"), "Kitana's Lobby");
    assert_eq!(sanitize_lobby_name(None, "SubZero"), "SubZero");
}

#[test]
fn normalize_lobby_chat_trims_and_rejects_bad_messages() {
    assert_eq!(normalize_lobby_chat("  ft5?  ").unwrap(), "ft5?");
    assert!(normalize_lobby_chat("").is_err());
    assert!(normalize_lobby_chat(&"x".repeat(181)).is_err());
    assert!(normalize_lobby_chat("hello\u{0007}").is_err());
}

#[test]
fn lobby_room_summary_keeps_public_lobby_metadata() {
    let room = SparRoom {
        room_id: "room-1".into(),
        creator_discord_id: "p1".into(),
        creator_username: "Jax".into(),
        created_at: Timestamp::now(),
        name: "Long Sets".into(),
        format: LobbyMatchFormat::Ft10,
        private: false,
        app_version: "0.7.10".into(),
        rom_hash: "abcd".into(),
    };

    let summary = lobby_room_summary(&room);

    assert_eq!(summary.id, "room-1");
    assert_eq!(summary.name, "Long Sets");
    assert_eq!(summary.host_username, "Jax");
    assert_eq!(summary.format, LobbyMatchFormat::Ft10);
    assert_eq!(summary.players, 1);
    assert!(!summary.private);
    assert_eq!(summary.status, "open");
}

#[test]
fn lobby_names_are_squeezed_and_cut() {
    assert_eq!(sanitize_lobby_name(Some("a   b"), "x"), "a b");
    assert_eq!(sanitize_lobby_name(Some("a!! b"), "x"), "a b");
    assert_eq!(sanitize_lobby_name(Some("under_score-dash"), "x"), "under_score-dash");
    assert_eq!(sanitize_lobby_name(Some(&"z".repeat(50)), "x"), "z".repeat(32));
    assert_eq!(
        sanitize_lobby_name(Some(&format!("{} tail", "z".repeat(31))), "x"),
        "z".repeat(31)
    );
    assert_eq!(sanitize_lobby_name(Some("a\tb"), "x"), "ab");
    assert_eq!(sanitize_lobby_name(None, ""), "'s Lobby");
}

#[test]
fn chat_errors_say_why() {
    assert!(matches!(normalize_lobby_chat("   "), Err(AppError::BadRequest(m)) if m == "Message is empty"));
    assert!(
        matches!(normalize_lobby_chat(&"é".repeat(181)), Err(AppError::BadRequest(m)) if m == "Message is too long")
    );
    assert!(
        matches!(normalize_lobby_chat("a\u{0}b"), Err(AppError::BadRequest(m)) if m == "Message contains control characters")
    );
    assert_eq!(normalize_lobby_chat(&"é".repeat(180)).unwrap(), "é".repeat(180));
    assert_eq!(normalize_lobby_chat("a\tb").unwrap(), "a\tb");
}

#[test]
fn usernames_are_cleaned() {
    assert_eq!(sanitize_username("  Sub Zero  ").unwrap(), "Sub_Zero");
    assert_eq!(sanitize_username("a  b").unwrap(), "a_b");
    assert_eq!(sanitize_username("a_b").unwrap(), "a_b");
    assert_eq!(sanitize_username("_x_").as_deref(), None);
    assert_eq!(sanitize_username("ab!").unwrap(), "ab");
    assert_eq!(sanitize_username("a").as_deref(), None);
    assert_eq!(sanitize_username("").as_deref(), None);
    assert_eq!(sanitize_username(&"q".repeat(30)).unwrap(), "q".repeat(24));
    assert_eq!(sanitize_username("na\u{ef}ve").unwrap(), "nave");
    assert_eq!(sanitize_username("x\u{3000}y").unwrap(), "x_y");
}

#[test]
fn emails_are_lowered_and_checked() {
    assert_eq!(normalize_email(" Kitana@Example.COM ").unwrap(), "kitana@example.com");
    assert_eq!(normalize_email("no-at.example.com").as_deref(), None);
    assert_eq!(normalize_email("a@b").as_deref(), None);
    let long = format!("{}@b.c", "x".repeat(250));
    assert_eq!(long.len(), 254);
    assert_eq!(normalize_email(&long).unwrap(), long);
    assert_eq!(normalize_email(&format!("y{long}")).as_deref(), None);
    assert_eq!(normalize_email("\u{c9}@x.y").unwrap(), "\u{c9}@x.y");
}

#[test]
fn character_classes_agree_with_std() {
    for code in 0..=0x10ffffu32 {
        if let Some(c) = char::from_u32(code) {
            assert_eq!(is_white_space(c), c.is_whitespace(), "{code:x}");
            assert_eq!(is_control(c), c.is_control(), "{code:x}");
            assert_eq!(is_ascii_alphanumeric(c), c.is_ascii_alphanumeric(), "{code:x}");
        }
    }
}

#[test]
fn trimming_agrees_with_std() {
    for s in ["", " ", "a", " a ", "\u{2003}x\u{a0}", "__a_b__", "////", "http://x//", "/a/"] {
        assert_eq!(trim(s), s.trim());
        assert_eq!(trim_char(s, '_'), s.trim_matches('_'));
        assert_eq!(trim_char_back(s, '/'), s.trim_end_matches('/'));
    }
    assert!(begins_with("room#1", "room#"));
    assert!(!begins_with("room", "room#"));
    assert!(begins_with("x", ""));
}

#[test]
fn numbers_are_written_in_decimal() {
    for n in [0u64, 7, 10, 99, 65535, u64::MAX] {
        assert_eq!(decimal_text(n), n.to_string());
    }
    for n in [0i64, -1, 42, -305, i64::MAX, i64::MIN] {
        assert_eq!(signed_decimal_text(n), n.to_string());
    }
    assert_eq!(padded_decimal_text(7, 2), "07");
    assert_eq!(padded_decimal_text(2026, 4), "2026");
    assert_eq!(padded_decimal_text(12345, 4), "12345");
}
