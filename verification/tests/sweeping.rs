use signaling_server::auth::issue_token;
use signaling_server::config::{Config, EnvVars};
use signaling_server::error::AppError;
use signaling_server::incidents::{
    record_server_incident, record_server_incident_at, submit_incident, submit_incident_at,
    upload_target, DetailValue, IncidentRequest, Payload, ServerIncident,
};
use signaling_server::models::{
    Challenge, Claims, ConfirmedResult, LobbyChatEntry, LobbyMatchFormat, LobbyPresence, MatchInfo,
    OAuthState, PendingResult, PlayerRole, QueueEntry, SparRoom, SpectatorFrame,
};
use signaling_server::state::AppState;
use signaling_server::sweeper::{sweep_once, sweep_once_at, SweepCounts};
use signaling_server::time::Timestamp;

fn state() -> AppState {
    AppState::new(
        Config::from_env(EnvVars {
            discord_client_id: Some("client".into()),
            discord_client_secret: Some("hush".into()),
            discord_webhook_url: None,
            discord_redirect_uri: None,
            jwt_secret: Some("signing".into()),
            turn_server_ip: None,
            turn_shared_secret: None,
            turn_realm: None,
            stats_service_url: None,
            stats_api_key: None,
            github_issues_repo: None,
            github_issues_token: None,
        })
        .unwrap(),
    )
}

const NOW: Timestamp = Timestamp { nanos: 1_000_000_000_000 };

fn ago(secs: i128) -> Timestamp {
    Timestamp { nanos: NOW.nanos - secs * 1_000_000_000 }
}

fn session(id: &str, age: i128, room: Option<&str>, cancelled: bool) -> QueueEntry {
    QueueEntry {
        session_id: id.into(),
        discord_id: format!("p-{id}"),
        username: format!("n-{id}"),
        stun_endpoint: "1.1.1.1:1".into(),
        app_version: "1.0".into(),
        rom_hash: "rom".into(),
        queued_at: ago(age),
        match_info: room.map(|r| MatchInfo {
            role: PlayerRole::Join,
            peer_endpoint: "2.2.2.2:2".into(),
            punch_at_ms: 77,
            room_id: r.into(),
            username: "peer".into(),
            turn: None,
        }),
        cancelled,
        relayed_addr: None,
    }
}

fn add(s: &AppState, e: QueueEntry) {
    s.player_sessions.insert(e.discord_id.clone(), e.session_id.clone());
    s.queue.insert(e.session_id.clone(), e);
}

fn keys(s: &AppState) -> Vec<String> {
    let mut keys: Vec<String> = s.queue.iter().map(|e| e.key().clone()).collect();
    keys.sort();
    keys
}

fn sweep(s: &mut AppState) -> (SweepCounts, Vec<ServerIncident>) {
    let order = keys(s);
    sweep_once_at(s, NOW, &order)
}

fn challenge(age: i128) -> Challenge {
    Challenge {
        challenge_id: "c".into(),
        challenger_session_id: "s".into(),
        challenger_discord_id: "p-s".into(),
        challenger_username: "n-s".into(),
        target_discord_id: "t".into(),
        target_username: "T".into(),
        format: LobbyMatchFormat::Ft3,
        stun_endpoint: "1.1.1.1:1".into(),
        app_version: "1.0".into(),
        rom_hash: "rom".into(),
        created_at: ago(age),
    }
}

fn account(log: String) -> IncidentRequest {
    IncidentRequest {
        kind: "panic".into(),
        summary: "boom".into(),
        session_id: "s".into(),
        room_id: "r".into(),
        peer_endpoint: "".into(),
        role: "host".into(),
        app_version: "1.0".into(),
        build_date: "".into(),
        git_hash: "".into(),
        rom_hash: "rom".into(),
        p1_score: Some(1),
        p2_score: None,
        frames_advanced: 9,
        net_log_tail: log,
        ggrs_event_tail: "short".into(),
    }
}

#[test]
fn old_sessions_are_dropped() {
    let mut s = state();
    add(&s, session("young", 300, None, false));
    add(&s, session("old", 301, None, false));
    add(&s, session("off-young", 30, None, true));
    add(&s, session("off-old", 31, None, true));
    s.player_sessions.insert("p-off-old".into(), "newer".into());
    let (counts, incidents) = sweep(&mut s);
    assert_eq!(keys(&s), vec!["off-young".to_string(), "young".to_string()]);
    assert_eq!(counts.queue, 2);
    assert!(!s.player_sessions.contains_key("p-old"));
    assert!(s.player_sessions.contains_key("p-young"));
    assert_eq!(s.player_sessions.get("p-off-old").unwrap().as_str(), "newer");
    assert_eq!(incidents.len(), 1);
    assert_eq!(incidents[0].kind, "lfg_no_pair");
    assert_eq!(
        incidents[0].summary,
        "n-old sat in queue 301s without finding a partner (rom=rom, app=1.0)"
    );
    assert_eq!(incidents[0].room_id, "");
    assert_eq!(incidents[0].usernames, vec!["n-old".to_string()]);
    assert_eq!(sweep(&mut s).0.total(), 0);
}

#[test]
fn matches_without_a_result_are_noted() {
    let mut s = state();
    add(&s, session("a", 400, Some("r1"), false));
    add(&s, session("b", 400, Some("r2"), false));
    add(&s, session("c", 400, Some("r3"), false));
    add(&s, session("d", 400, Some("r4"), true));
    s.confirmed_results.insert("r2#0".into(), ConfirmedResult { committed_at: NOW });
    s.confirmed_results.insert("r3".into(), ConfirmedResult { committed_at: NOW });
    let (counts, incidents) = sweep(&mut s);
    assert_eq!(counts.queue, 4);
    assert_eq!(incidents.len(), 1);
    let i = &incidents[0];
    assert_eq!((i.kind.as_str(), i.room_id.as_str()), ("matched_no_result", "r1"));
    assert_eq!(i.summary, "Match r1 between n-a and peer reaped after 400s with no result");
    assert_eq!(i.usernames, vec!["n-a".to_string(), "peer".to_string()]);
    assert_eq!(i.session_ids, vec!["a".to_string()]);
    assert!(matches!(&i.details[0].value, DetailValue::Text(t) if t == "Join"));
    assert!(matches!(&i.details[2].value, DetailValue::Number(77)));
    assert!(matches!(&i.details[3].value, DetailValue::Flag(false)));
    assert!(matches!(&i.details[7].value, DetailValue::Text(t) if t == "1970-01-01T00:16:40+00:00"));
}

#[test]
fn results_of_longer_room_names_do_not_count() {
    let mut s = state();
    add(&s, session("a", 400, Some("r1"), false));
    s.confirmed_results.insert("r10#0".into(), ConfirmedResult { committed_at: NOW });
    assert_eq!(sweep(&mut s).1.len(), 1);
}

#[test]
fn rows_are_kept_as_long_as_they_should_be() {
    for (extra, gone) in [(0, 0usize), (1, 1)] {
        let mut s = state();
        s.spar_rooms.insert("k".into(), SparRoom {
            room_id: "k".into(), creator_discord_id: "p".into(), creator_username: "P".into(),
            created_at: ago(600 + extra), name: "n".into(), format: LobbyMatchFormat::Ft3,
            private: false, app_version: "1".into(), rom_hash: "r".into(),
        });
        s.confirmed_results.insert("k".into(), ConfirmedResult { committed_at: ago(600 + extra) });
        s.pending_results.insert("k".into(), PendingResult {
            reporter_discord_id: "p".into(), p1_score: 0, p2_score: 0, reported_at: ago(60 + extra),
        });
        s.spectator_frames.insert("k".into(), SpectatorFrame {
            savestate: "".into(), inputs: "".into(), frame: 0, score_p1: 0, score_p2: 0,
            p1_username: "".into(), p2_username: "".into(), updated_at: ago(90 + extra),
        });
        s.lobby_presence.insert("k".into(), LobbyPresence {
            player_id: "k".into(), username: "".into(), status: "".into(), last_seen: ago(90 + extra),
        });
        s.lobby_chat.insert("k".into(), LobbyChatEntry {
            message_id: "k".into(), player_id: "".into(), username: "".into(), message: "".into(),
            created_at: ago(1800 + extra),
        });
        s.challenges.insert("k".into(), challenge(120 + extra));
        s.oauth_states.insert("k".into(), OAuthState { issued_at: ago(300 + extra) });
        add(&s, session("s", 10, None, false));
        let (counts, incidents) = sweep(&mut s);
        assert_eq!(counts, SweepCounts {
            queue: 0, spar: gone, confirmed: gone, pending: gone, spectator: gone,
            lobby_presence: gone, lobby_chat: gone, challenges: gone, oauth: gone, lobbies: 0,
        });
        assert_eq!(counts.total(), 8 * gone);
        assert!(incidents.is_empty());
        assert_eq!(s.spar_rooms.is_empty(), gone == 1);
        assert_eq!(s.queue.get("s").unwrap().cancelled, gone == 1);
    }
}

#[test]
fn the_clock_decides_what_is_old() {
    let mut s = state();
    add(&s, session("a", 0, None, false));
    let (counts, incidents) = sweep_once(&mut s);
    assert_eq!((counts.queue, incidents.len()), (1, 1));
    assert!(s.queue.is_empty());
}

#[test]
fn accounts_of_failures_are_recorded() {
    let who = Claims { sub: "a".into(), username: "Ann".into(), email: None, exp: 4_102_444_800 };
    let at = Timestamp { nanos: 1_700_000_000_000_000_000 };
    let stored = submit_incident_at(&who, account("x".repeat(262_144) + "yz"), "id-1".into(), at);
    assert_eq!((stored.origin, stored.incident_id.as_str(), stored.recorded_at), ("client", "id-1", at));
    assert_eq!(stored.reporter_discord_id.as_deref(), Some("a"));
    assert_eq!(stored.reporter_username.as_deref(), Some("Ann"));
    let (name, url) = upload_target(&stored);
    assert_eq!(name, "2023/11/14/id-1.json");
    assert_eq!(
        url,
        "https://storage.googleapis.com/upload/storage/v1/b/quarterframe-freeplay-incidents/o?uploadType=media&name=2023%2F11%2F14%2Fid-1.json"
    );
    match stored.payload {
        Payload::Client(req) => {
            assert_eq!(req.net_log_tail, format!("[truncated 2 bytes from front]\n{}yz", "x".repeat(262_142)));
            assert_eq!(req.ggrs_event_tail, "short");
            assert_eq!(req.frames_advanced, 9);
        }
        Payload::Server(_) => panic!(),
    }
}

#[test]
fn accounts_take_tokens() {
    let s = state();
    let who = Claims { sub: "a".into(), username: "Ann".into(), email: None, exp: 4_102_444_800 };
    let token = issue_token(&who, "signing").unwrap();
    let stored = submit_incident(&s.config, &token, account("".into())).unwrap();
    assert_eq!(stored.incident_id.len(), 36);
    assert_eq!(stored.reporter_discord_id.as_deref(), Some("a"));
    assert!(matches!(submit_incident(&s.config, "junk", account("".into())), Err(AppError::Unauthorized(_))));
}

#[test]
fn what_the_service_notices_is_recorded() {
    let incident = || ServerIncident {
        kind: "k".into(),
        summary: "s".into(),
        room_id: "r".into(),
        session_ids: vec![],
        usernames: vec![],
        details: vec![],
    };
    let stored = record_server_incident_at(incident(), "id".into(), NOW);
    assert_eq!((stored.origin, stored.reporter_discord_id.is_none()), ("server", true));
    assert!(matches!(stored.payload, Payload::Server(i) if i.kind == "k"));
    assert_ne!(record_server_incident(incident()).incident_id, record_server_incident(incident()).incident_id);
}
