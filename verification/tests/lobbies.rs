use signaling_server::auth::issue_token;
use signaling_server::config::{Config, EnvVars};
use signaling_server::error::AppError;
use signaling_server::models::{
    Claims, CreateLobbyRequest, JoinLobbyRequest, KohLobby, LobbyMatchFormat, LobbyRole,
    LobbyStateResponse, MatchResultRequest, MatchStatus, PlayerRole,
};
use signaling_server::lobby_requests::{
    create_lobby, create_lobby_at, get_lobby, get_lobby_at, get_lobby_thumb,
    is_unranked_lobby_room, join_lobby, join_lobby_at, koh_on_result, koh_on_result_at,
    leave_lobby, leave_lobby_at, put_lobby_thumb, put_lobby_thumb_at, ready_lobby, ready_lobby_at,
};
use signaling_server::queue::match_status_for;
use signaling_server::results::match_result_at;
use signaling_server::rooms::list_koh_lobbies;
use signaling_server::state::AppState;
use signaling_server::sweeper::{sweep_lobbies, sweep_lobbies_at};
use signaling_server::time::Timestamp;

fn state() -> AppState {
    AppState::new(
        Config::from_env(EnvVars {
            discord_client_id: Some("client".into()),
            discord_client_secret: Some("hush".into()),
            discord_webhook_url: None,
            discord_redirect_uri: None,
            jwt_secret: Some("signing".into()),
            turn_server_ip: Some("203.0.113.9".into()),
            turn_shared_secret: Some("Jefe".into()),
            turn_realm: None,
            stats_service_url: Some("https://stats".into()),
            stats_api_key: Some("key".into()),
            github_issues_repo: None,
            github_issues_token: None,
        })
        .unwrap(),
    )
}

fn player(sub: &str) -> Claims {
    Claims { sub: sub.into(), username: format!("name-{sub}"), email: None, exp: 4_102_444_800 }
}

fn token(sub: &str) -> String {
    issue_token(&player(sub), "signing").unwrap()
}

fn create(ranked: bool, private: bool) -> CreateLobbyRequest {
    CreateLobbyRequest {
        name: "The Hill".into(),
        ranked,
        private,
        format: LobbyMatchFormat::Ft5,
        stun_endpoint: "1.1.1.1:1".into(),
        app_version: "1.0".into(),
        rom_hash: "rom".into(),
    }
}

fn join(spectate: bool) -> JoinLobbyRequest {
    JoinLobbyRequest {
        stun_endpoint: "2.2.2.2:2".into(),
        app_version: "1.0".into(),
        rom_hash: "rom".into(),
        spectate,
    }
}

const NOW: Timestamp = Timestamp { nanos: 1_000_000_000_000 };

fn later(secs: i128) -> Timestamp {
    Timestamp { nanos: NOW.nanos + secs * 1_000_000_000 }
}

fn opened(ranked: bool) -> AppState {
    let mut s = state();
    let made = create_lobby_at(&mut s, &player("a"), &create(ranked, false), "CODE", NOW).unwrap();
    assert_eq!(made.lobby_id, "CODE");
    s
}

fn enter(s: &mut AppState, who: &str) -> LobbyStateResponse {
    join_lobby_at(s, &player(who), "CODE", &join(false), NOW).unwrap()
}

fn lobby(s: &AppState) -> KohLobby {
    s.koh_lobbies.get("CODE").unwrap().clone()
}

fn line(s: &AppState) -> Vec<String> {
    lobby(s).queue.iter().cloned().collect()
}

fn ready(s: &mut AppState, who: &str, now: Timestamp) -> LobbyStateResponse {
    ready_lobby_at(s, &player(who), "CODE", "r1", "s-host", "s-join", now).unwrap()
}

fn playing(ranked: bool) -> AppState {
    let mut s = opened(ranked);
    enter(&mut s, "b");
    enter(&mut s, "c");
    ready(&mut s, "b", NOW);
    s
}

fn lobby_keys() -> Vec<String> {
    vec!["CODE".to_string()]
}

#[test]
fn a_new_lobby_has_its_opener_in_line() {
    let s = opened(true);
    let l = lobby(&s);
    assert_eq!((l.id.as_str(), l.name.as_str(), l.host_id.as_str()), ("CODE", "The Hill", "a"));
    assert_eq!(line(&s), vec!["a".to_string()]);
    assert_eq!(l.members.len(), 1);
    assert!(l.pending.is_none() && l.current.is_none());
    let mut s = state();
    let mut req = create(true, false);
    req.stun_endpoint = "x".into();
    assert!(matches!(create_lobby_at(&mut s, &player("a"), &req, "C", NOW), Err(AppError::BadRequest(_))));
    assert!(s.koh_lobbies.is_empty());
}

#[test]
fn the_second_to_join_is_asked() {
    let mut s = opened(true);
    let shown = enter(&mut s, "b");
    let check = shown.ready_check.unwrap();
    assert_eq!((check.champion_username.as_str(), check.challenger_username.as_str()), ("name-a", "name-b"));
    assert_eq!((check.seconds_left, check.you_are_challenger), (10, true));
    assert!(shown.queue.is_empty());
    assert_eq!(shown.your_role, Some(LobbyRole::Queued));
    let shown = enter(&mut s, "c");
    assert_eq!(shown.queue, vec!["name-c".to_string()]);
    assert_eq!(shown.your_position, Some(0));
    assert!(!shown.ready_check.unwrap().you_are_challenger);
}

#[test]
fn joining_a_lobby_is_checked() {
    let mut s = opened(true);
    let mut req = join(false);
    req.rom_hash = "mor".into();
    assert!(matches!(join_lobby_at(&mut s, &player("b"), "CODE", &req, NOW), Err(AppError::BadRequest(m)) if m == "Lobby requires matching app version and ROM hash"));
    assert!(matches!(join_lobby_at(&mut s, &player("b"), "NONE", &join(false), NOW), Err(AppError::NotFound(m)) if m == "Lobby not found or already closed"));
    req.stun_endpoint = "".into();
    assert!(matches!(join_lobby_at(&mut s, &player("b"), "CODE", &req, NOW), Err(AppError::BadRequest(m)) if m == "Invalid stun_endpoint"));
    assert_eq!(lobby(&s).members.len(), 1);
    assert!(matches!(get_lobby_at(&mut s, &player("b"), "NONE", NOW), Err(AppError::NotFound(_))));
    assert!(matches!(ready_lobby_at(&mut s, &player("b"), "NONE", "r", "h", "j", NOW), Err(AppError::NotFound(_))));
}

#[test]
fn spectators_do_not_stand_in_line() {
    let mut s = opened(true);
    let shown = join_lobby_at(&mut s, &player("b"), "CODE", &join(true), NOW).unwrap();
    assert_eq!(shown.your_role, Some(LobbyRole::Spectating));
    assert_eq!(shown.your_position, None);
    assert!(shown.ready_check.is_none());
    let shown = join_lobby_at(&mut s, &player("a"), "CODE", &join(true), NOW).unwrap();
    assert!(shown.queue.is_empty());
    assert_eq!(shown.members.len(), 2);
    assert_eq!(lobby(&s).members[0].stun_endpoint, "2.2.2.2:2");
}

#[test]
fn only_the_challenger_starts_the_match() {
    let mut s = opened(true);
    enter(&mut s, "b");
    let shown = ready(&mut s, "a", NOW);
    assert!(shown.current.is_none() && s.queue.is_empty());
    let shown = ready(&mut s, "b", NOW);
    let current = shown.current.unwrap();
    assert_eq!((current.host_username.as_str(), current.join_username.as_str()), ("name-a", "name-b"));
    assert_eq!((current.host_session.as_str(), current.join_session.as_str()), ("s-host", "s-join"));
    assert!(shown.ready_check.is_none());
    assert_eq!(shown.your_session.as_deref(), Some("s-join"));
    let info = shown.your_match.unwrap();
    assert_eq!((info.role, info.peer_endpoint.as_str(), info.room_id.as_str()), (PlayerRole::Join, "1.1.1.1:1", "r1"));
    assert!(shown.members.iter().all(|m| m.in_match));
    let host = match_status_for(&s, &player("a"), "s-host").unwrap();
    assert_eq!(host.status, MatchStatus::Matched);
    assert_eq!(host.match_info.unwrap().turn.unwrap().username, "0:4600:r1");
    assert_eq!(s.player_sessions.get("b").unwrap().as_str(), "s-join");
}

#[test]
fn a_late_challenger_is_left_to_watch() {
    let mut s = opened(true);
    enter(&mut s, "b");
    enter(&mut s, "c");
    let shown = get_lobby_at(&mut s, &player("a"), "CODE", later(10)).unwrap();
    assert_eq!(shown.ready_check.unwrap().seconds_left, 0);
    let at = Timestamp { nanos: later(10).nanos + 1 };
    let shown = get_lobby_at(&mut s, &player("a"), "CODE", at).unwrap();
    let check = shown.ready_check.unwrap();
    assert_eq!((check.champion_username.as_str(), check.challenger_username.as_str()), ("name-a", "name-c"));
    assert_eq!(shown.members[1].role, LobbyRole::Spectating);
    let shown = ready(&mut s, "b", later(12));
    assert!(shown.current.is_none());
    assert_eq!(shown.your_position, None);
}

#[test]
fn being_late_oneself_does_not_start_the_match() {
    let mut s = opened(true);
    enter(&mut s, "b");
    let shown = ready(&mut s, "b", later(11));
    assert!(shown.current.is_none() && shown.ready_check.is_none());
    assert_eq!(shown.queue, vec!["name-a".to_string()]);
    assert_eq!(shown.your_role, Some(LobbyRole::Spectating));
}

#[test]
fn the_winner_stays_on_the_hill() {
    let mut s = playing(true);
    koh_on_result_at(&mut s, "r1", "b", "a", NOW, &lobby_keys());
    let l = lobby(&s);
    let p = l.pending.unwrap();
    assert_eq!((p.champion.as_str(), p.challenger.as_str(), p.deadline), ("b", "c", later(10)));
    assert_eq!(line(&s), vec!["a".to_string()]);
    assert!(l.current.is_none());
    assert!(!s.queue.contains_key("s-host") && !s.queue.contains_key("s-join"));
    koh_on_result(&mut s, "elsewhere", "a", "b");
    assert_eq!(lobby(&s).pending.unwrap().champion, "b");
}

#[test]
fn a_reported_set_rotates_the_lobby() {
    let mut s = playing(false);
    assert!(is_unranked_lobby_room(&s, "r1"));
    let order = vec!["s-host".to_string(), "s-join".to_string()];
    let report = |sid: &str, index: u32, set_over: bool| MatchResultRequest {
        session_id: sid.into(),
        match_index: index,
        p1_score: 5,
        p2_score: 2,
        set_over,
    };
    match_result_at(&mut s, &player("a"), &report("s-host", 0, false), NOW, &order, &lobby_keys());
    let res = match_result_at(&mut s, &player("b"), &report("s-join", 0, false), NOW, &order, &lobby_keys());
    assert!(res.reply.is_ok() && res.forward.is_none());
    assert!(lobby(&s).current.is_some());
    match_result_at(&mut s, &player("a"), &report("s-host", 1, true), NOW, &order, &lobby_keys());
    match_result_at(&mut s, &player("b"), &report("s-join", 1, true), NOW, &order, &lobby_keys());
    assert_eq!(lobby(&s).pending.unwrap().champion, "a");
    assert_eq!(line(&s), vec!["b".to_string()]);
    assert!(!is_unranked_lobby_room(&s, "r1"));
    assert!(!is_unranked_lobby_room(&playing(true), "r1"));
}

#[test]
fn leaving_a_match_hands_it_over() {
    let mut s = playing(true);
    leave_lobby_at(&mut s, &player("a"), "CODE", NOW);
    let l = lobby(&s);
    assert!(l.current.is_none());
    let p = l.pending.unwrap();
    assert_eq!((p.champion.as_str(), p.challenger.as_str()), ("b", "c"));
    assert!(s.queue.is_empty());
    leave_lobby_at(&mut s, &player("c"), "CODE", NOW);
    assert!(lobby(&s).pending.is_none());
    assert_eq!(line(&s), vec!["b".to_string()]);
    s.lobby_thumbs.insert("CODE".into(), signaling_server::models::LobbyThumb { bytes: vec![1], pushed_at: NOW });
    leave_lobby_at(&mut s, &player("b"), "CODE", NOW);
    assert!(s.koh_lobbies.is_empty() && s.lobby_thumbs.is_empty());
    leave_lobby_at(&mut s, &player("b"), "CODE", NOW);
}

#[test]
fn whoever_plays_does_not_stand_in_line() {
    let mut s = playing(true);
    enter(&mut s, "a");
    assert_eq!(line(&s), vec!["c".to_string()]);
}

#[test]
fn lobbies_are_listed_by_name() {
    let mut s = opened(true);
    create_lobby_at(&mut s, &player("x"), &create(true, true), "HIDDEN", NOW).unwrap();
    let mut req = create(true, false);
    req.name = "Arena".into();
    create_lobby_at(&mut s, &player("y"), &req, "OTHER", NOW).unwrap();
    let listed = list_koh_lobbies(&s).lobbies;
    let names: Vec<(&str, &str, u8)> = listed.iter().map(|l| (l.name.as_str(), l.status.as_str(), l.players)).collect();
    assert_eq!(names, vec![("Arena", "open", 1), ("The Hill", "open", 1)]);
    assert_eq!(listed[1].host_username, "name-a");
    let mut s = playing(true);
    let listed = list_koh_lobbies(&s).lobbies;
    assert_eq!((listed[0].status.as_str(), listed[0].players), ("in match", 3));
    leave_lobby_at(&mut s, &player("a"), "CODE", NOW);
    assert_eq!(list_koh_lobbies(&s).lobbies[0].host_username, "name-b");
}

#[test]
fn screenshots_come_from_those_who_play() {
    let mut s = playing(true);
    assert!(get_lobby_thumb(&s, "CODE").is_none());
    assert!(matches!(put_lobby_thumb_at(&mut s, &player("c"), "CODE", vec![1], NOW), Err(AppError::Unauthorized(m)) if m == "Only active players can push a lobby thumbnail"));
    assert!(matches!(put_lobby_thumb_at(&mut s, &player("a"), "NONE", vec![1], NOW), Err(AppError::Unauthorized(_))));
    assert!(matches!(put_lobby_thumb_at(&mut s, &player("a"), "CODE", vec![0; 262_145], NOW), Err(AppError::BadRequest(m)) if m == "Thumbnail too large"));
    put_lobby_thumb_at(&mut s, &player("a"), "CODE", vec![0; 262_144], NOW).unwrap();
    put_lobby_thumb(&mut s, &token("b"), "CODE", vec![1, 2, 3]).unwrap();
    assert_eq!(get_lobby_thumb(&s, "CODE").unwrap(), vec![1, 2, 3]);
    assert!(matches!(put_lobby_thumb(&mut s, "junk", "CODE", vec![9]), Err(AppError::Unauthorized(_))));
    assert_eq!(get_lobby_thumb(&s, "CODE").unwrap(), vec![1, 2, 3]);
}

#[test]
fn lobbies_take_tokens() {
    let mut s = state();
    let made = create_lobby(&mut s, &token("a"), &create(true, false)).unwrap();
    assert_eq!(made.lobby_id.len(), 6);
    assert!(made.lobby_id.chars().all(|c| c.is_ascii_digit() || ('A'..='F').contains(&c)));
    let mut nowhere = create(true, false);
    nowhere.stun_endpoint = "nowhere".into();
    match create_lobby(&mut s, &token("a"), &nowhere) {
        Err(AppError::BadRequest(m)) => assert_eq!(m, "Invalid stun_endpoint"),
        other => panic!("{other:?}"),
    }
    assert_eq!(s.koh_lobbies.len(), 1);
    assert!(s.koh_lobbies.contains_key(&made.lobby_id));
    join_lobby(&mut s, &token("b"), &made.lobby_id, &join(false)).unwrap();
    assert!(get_lobby(&mut s, &token("a"), &made.lobby_id).unwrap().ready_check.is_some());
    let shown = ready_lobby(&mut s, &token("b"), &made.lobby_id).unwrap();
    assert!(shown.current.is_some());
    assert_eq!(s.queue.len(), 2);
    leave_lobby(&mut s, &token("b"), &made.lobby_id).unwrap();
    assert!(s.queue.is_empty());
    for e in [
        create_lobby(&mut s, "junk", &create(true, false)).err(),
        join_lobby(&mut s, "junk", "x", &join(false)).err(),
        get_lobby(&mut s, "junk", "x").err(),
        ready_lobby(&mut s, "junk", "x").err(),
        leave_lobby(&mut s, "junk", &made.lobby_id).err(),
    ] {
        assert!(matches!(e, Some(AppError::Unauthorized(_))));
    }
    assert_eq!(s.koh_lobbies.len(), 1);
}

#[test]
fn silent_members_are_swept_but_not_those_who_play() {
    let mut s = playing(true);
    assert_eq!(sweep_lobbies_at(&mut s, later(61)), 0);
    let l = lobby(&s);
    let ids: Vec<&str> = l.members.iter().map(|m| m.player_id.as_str()).collect();
    assert_eq!(ids, vec!["a", "b"]);
    assert!(l.current.is_some());
    assert_eq!(sweep_lobbies_at(&mut s, later(600)), 0);
    assert!(lobby(&s).current.is_some());
    assert_eq!(sweep_lobbies_at(&mut s, later(601)), 1);
    assert!(s.koh_lobbies.is_empty() && s.queue.is_empty());
}

#[test]
fn the_sweep_deals_with_ready_checks() {
    let mut s = opened(true);
    enter(&mut s, "b");
    enter(&mut s, "c");
    assert_eq!(sweep_lobbies_at(&mut s, later(11)), 0);
    let p = lobby(&s).pending.unwrap();
    assert_eq!((p.champion.as_str(), p.challenger.as_str()), ("a", "c"));
    assert_eq!(sweep_lobbies(&mut s), 1);
    assert!(s.koh_lobbies.is_empty());
}
