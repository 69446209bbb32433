use signaling_server::auth::issue_token;
use signaling_server::config::{Config, EnvVars};
use signaling_server::discord::Notice;
use signaling_server::error::AppError;
use signaling_server::models::{
    Claims, LfgRequest, MatchResultRequest, MatchStatus, PlayerRole, TurnReadyRequest,
};
use signaling_server::queue::{
    cancel_queue, cancel_queue_for, looking_for_game, looking_for_game_at, match_status,
    match_status_for, peer_relay, peer_relay_for, turn_ready, turn_ready_for,
};
use signaling_server::results::{
    forward_to_stats_with_retry, match_result, match_result_at, result_id_of, Attempt, NextStep,
    ResultReply,
};
use signaling_server::state::AppState;
use signaling_server::time::Timestamp;

fn config() -> Config {
    Config::from_env(EnvVars {
        discord_client_id: Some("client".into()),
        discord_client_secret: Some("hush".into()),
        discord_webhook_url: None,
        discord_redirect_uri: None,
        jwt_secret: Some("signing".into()),
        turn_server_ip: Some("203.0.113.9".into()),
        turn_shared_secret: Some("Jefe".into()),
        turn_realm: None,
        stats_service_url: Some("https://stats/results".into()),
        stats_api_key: Some("key".into()),
        github_issues_repo: None,
        github_issues_token: None,
    })
    .unwrap()
}

fn player(sub: &str, username: &str) -> Claims {
    Claims { sub: sub.into(), username: username.into(), email: None, exp: 4_102_444_800 }
}

fn token(sub: &str, username: &str) -> String {
    issue_token(&player(sub, username), "signing").unwrap()
}

fn lfg(stun: &str, rom: &str) -> LfgRequest {
    LfgRequest { stun_endpoint: stun.into(), app_version: "1.0".into(), rom_hash: rom.into() }
}

fn keys(state: &AppState) -> Vec<String> {
    let mut keys: Vec<String> = state.queue.iter().map(|e| e.key().clone()).collect();
    keys.sort();
    keys
}

const NOW: Timestamp = Timestamp { nanos: 1_000_000_000_000 };

fn search(state: &mut AppState, who: &Claims, req: &LfgRequest, sid: &str, room: &str) -> MatchStatus {
    let order = keys(state);
    looking_for_game_at(state, who, req, sid, room, NOW, &order).unwrap().0.status
}

fn paired() -> AppState {
    let mut state = AppState::new(config());
    assert_eq!(search(&mut state, &player("a", "Ann"), &lfg("1.1.1.1:1", "rom"), "s-a", "r0"), MatchStatus::Queued);
    assert_eq!(search(&mut state, &player("b", "Bob"), &lfg("2.2.2.2:2", "rom"), "s-b", "r1"), MatchStatus::Matched);
    state
}

fn report(sid: &str, index: u32, p1: u16, p2: u16) -> MatchResultRequest {
    MatchResultRequest { session_id: sid.into(), match_index: index, p1_score: p1, p2_score: p2, set_over: true }
}

#[test]
fn the_first_waits_and_the_second_is_matched() {
    let mut state = AppState::new(config());
    let order = keys(&state);
    let (res, notice) = looking_for_game_at(
        &mut state, &player("a", "Ann"), &lfg("1.1.1.1:1", "rom"), "s-a", "r0", NOW, &order,
    )
    .unwrap();
    assert_eq!((res.session_id.as_str(), res.status), ("s-a", MatchStatus::Queued));
    assert!(matches!(notice, Notice::Lfg { username } if username == "Ann"));
    let order = keys(&state);
    let (res, notice) = looking_for_game_at(
        &mut state, &player("b", "Bob"), &lfg("2.2.2.2:2", "rom"), "s-b", "r1", NOW, &order,
    )
    .unwrap();
    assert_eq!((res.session_id.as_str(), res.status), ("s-b", MatchStatus::Matched));
    assert!(matches!(notice, Notice::Matched { first, second } if first == "Bob" && second == "Ann"));
}

#[test]
fn the_two_are_told_of_each_other() {
    let state = paired();
    let a = match_status_for(&state, &player("a", "Ann"), "s-a").unwrap();
    let b = match_status_for(&state, &player("b", "Bob"), "s-b").unwrap();
    assert_eq!((a.status, b.status), (MatchStatus::Matched, MatchStatus::Matched));
    let (a, b) = (a.match_info.unwrap(), b.match_info.unwrap());
    assert_eq!((a.role, b.role), (PlayerRole::Host, PlayerRole::Join));
    assert_eq!((a.room_id.as_str(), b.room_id.as_str()), ("r1", "r1"));
    assert_eq!((a.peer_endpoint.as_str(), b.peer_endpoint.as_str()), ("2.2.2.2:2", "1.1.1.1:1"));
    assert_eq!((a.username.as_str(), b.username.as_str()), ("Bob", "Ann"));
    assert_eq!((a.punch_at_ms, b.punch_at_ms), (1_002_500, 1_002_500));
    assert_eq!(a.turn.unwrap().username, "0:4600:r1");
    assert_eq!(b.turn.unwrap().username, "1:4600:r1");
}

#[test]
fn other_builds_do_not_pair() {
    let mut state = AppState::new(config());
    search(&mut state, &player("a", "Ann"), &lfg("1.1.1.1:1", "rom"), "s-a", "r0");
    assert_eq!(search(&mut state, &player("b", "Bob"), &lfg("2.2.2.2:2", "mor"), "s-b", "r1"), MatchStatus::Queued);
    let mut other = lfg("3.3.3.3:3", "rom");
    other.app_version = "1.1".into();
    assert_eq!(search(&mut state, &player("c", "Cy"), &other, "s-c", "r2"), MatchStatus::Queued);
    assert_eq!(search(&mut state, &player("d", "Di"), &lfg("4.4.4.4:4", "mor"), "s-d", "r3"), MatchStatus::Matched);
}

#[test]
fn the_first_one_met_is_taken() {
    for (order, host) in [(vec!["s-a", "s-c"], "s-a"), (vec!["s-c", "s-a"], "s-c")] {
        let mut state = AppState::new(config());
        search(&mut state, &player("a", "Ann"), &lfg("1.1.1.1:1", "rom"), "s-a", "r0");
        let mut c = state.queue.get("s-a").unwrap().clone();
        c.session_id = "s-c".into();
        c.discord_id = "c".into();
        state.queue.insert("s-c".into(), c);
        let order: Vec<String> = order.into_iter().map(String::from).collect();
        looking_for_game_at(&mut state, &player("b", "Bob"), &lfg("2.2.2.2:2", "rom"), "s-b", "r1", NOW, &order).unwrap();
        for sid in ["s-a", "s-c"] {
            assert_eq!(state.queue.get(sid).unwrap().match_info.is_some(), sid == host);
        }
    }
}

#[test]
fn nobody_is_paired_with_themselves_or_twice() {
    let mut state = paired();
    assert_eq!(search(&mut state, &player("c", "Cy"), &lfg("3.3.3.3:3", "rom"), "s-c", "r2"), MatchStatus::Queued);
    assert_eq!(search(&mut state, &player("c", "Cy"), &lfg("3.3.3.3:3", "rom"), "s-d", "r3"), MatchStatus::Queued);
    assert!(!state.queue.contains_key("s-c"));
    assert_eq!(state.player_sessions.get("c").unwrap().as_str(), "s-d");
}

#[test]
fn an_endpoint_needs_a_colon() {
    let mut state = AppState::new(config());
    for stun in ["", "1.2.3.4"] {
        let order = keys(&state);
        match looking_for_game_at(&mut state, &player("a", "Ann"), &lfg(stun, "rom"), "s", "r", NOW, &order) {
            Err(AppError::BadRequest(m)) => assert_eq!(m, "Invalid stun_endpoint"),
            _ => panic!(),
        }
    }
    assert!(state.queue.is_empty() && state.player_sessions.is_empty());
}

#[test]
fn looking_anew_calls_the_old_match_off() {
    let mut state = paired();
    assert_eq!(search(&mut state, &player("b", "Bob"), &lfg("2.2.2.2:2", "rom"), "s-b2", "r2"), MatchStatus::Queued);
    assert!(!state.queue.contains_key("s-b"));
    let a = match_status_for(&state, &player("a", "Ann"), "s-a").unwrap();
    assert_eq!(a.status, MatchStatus::Cancelled);
    assert!(a.match_info.is_none());
}

#[test]
fn calling_off_is_seen_by_both_players() {
    let mut state = paired();
    cancel_queue_for(&mut state, &player("a", "Ann"));
    assert_eq!(match_status_for(&state, &player("a", "Ann"), "s-a").unwrap().status, MatchStatus::Cancelled);
    assert_eq!(match_status_for(&state, &player("b", "Bob"), "s-b").unwrap().status, MatchStatus::Cancelled);
    assert!(!state.player_sessions.contains_key("a"));
    cancel_queue_for(&mut state, &player("a", "Ann"));
    assert_eq!(state.queue.len(), 2);
}

#[test]
fn sessions_belong_to_their_players() {
    let state = paired();
    assert!(matches!(match_status_for(&state, &player("b", "Bob"), "s-a"), Err(AppError::Unauthorized(m)) if m == "Session does not belong to you"));
    assert!(matches!(match_status_for(&state, &player("b", "Bob"), "none"), Err(AppError::NotFound(m)) if m == "Session not found"));
    let mut alone = AppState::new(config());
    search(&mut alone, &player("a", "Ann"), &lfg("1.1.1.1:1", "rom"), "s-a", "r0");
    assert_eq!(match_status_for(&alone, &player("a", "Ann"), "s-a").unwrap().status, MatchStatus::Queued);
}

#[test]
fn relayed_addresses_reach_the_partner() {
    let mut state = paired();
    let order = keys(&state);
    assert_eq!(peer_relay_for(&state, &player("b", "Bob"), "s-b", &order).unwrap().peer_relayed_addr, None);
    let req = TurnReadyRequest { relayed_addr: "9.9.9.9:49212".into() };
    turn_ready_for(&mut state, &player("a", "Ann"), "s-a", &req).unwrap();
    assert_eq!(
        peer_relay_for(&state, &player("b", "Bob"), "s-b", &order).unwrap().peer_relayed_addr.as_deref(),
        Some("9.9.9.9:49212")
    );
    assert_eq!(peer_relay_for(&state, &player("a", "Ann"), "s-a", &order).unwrap().peer_relayed_addr, None);
}

#[test]
fn relayed_addresses_are_checked() {
    let mut state = paired();
    let bad = TurnReadyRequest { relayed_addr: "nine".into() };
    assert!(matches!(turn_ready_for(&mut state, &player("a", "Ann"), "s-a", &bad), Err(AppError::BadRequest(m)) if m == "Invalid relayed_addr"));
    let good = TurnReadyRequest { relayed_addr: "9.9.9.9:1".into() };
    assert!(matches!(turn_ready_for(&mut state, &player("b", "Bob"), "s-a", &good), Err(AppError::Unauthorized(_))));
    assert!(matches!(turn_ready_for(&mut state, &player("b", "Bob"), "x", &good), Err(AppError::NotFound(_))));
    search(&mut state, &player("c", "Cy"), &lfg("3.3.3.3:3", "rom"), "s-c", "r2");
    let order = keys(&state);
    assert!(matches!(peer_relay_for(&state, &player("c", "Cy"), "s-c", &order), Err(AppError::BadRequest(m)) if m == "Not matched yet"));
}

#[test]
fn two_equal_reports_settle_a_game() {
    let mut state = paired();
    let order = keys(&state);
    let first = match_result_at(&mut state, &player("a", "Ann"), &report("s-a", 2, 3, 5), NOW, &order, &vec![]);
    assert_eq!(first.reply.unwrap(), ResultReply::PendingPartner);
    assert!(first.forward.is_none() && first.incident.is_none());
    let again = match_result_at(&mut state, &player("a", "Ann"), &report("s-a", 2, 9, 9), NOW, &order, &vec![]);
    assert_eq!(again.reply.unwrap(), ResultReply::DuplicateSelfReport);
    let second = match_result_at(&mut state, &player("b", "Bob"), &report("s-b", 2, 3, 5), NOW, &order, &vec![]);
    assert_eq!(second.reply.unwrap(), ResultReply::Recorded);
    let job = second.forward.unwrap();
    assert_eq!((job.url.as_str(), job.api_key.as_str()), ("https://stats/results", "key"));
    let p = job.payload;
    assert_eq!(p.room_id, "r1#2");
    assert_eq!((p.winner_id.as_str(), p.winner_username.as_str(), p.winner_score), ("b", "Bob", 5));
    assert_eq!((p.loser_id.as_str(), p.loser_username.as_str(), p.loser_score), ("a", "Ann", 3));
    assert_eq!(p.rom_hash, "rom");
    assert!(state.confirmed_results.contains_key("r1#2"));
    assert!(state.pending_results.is_empty());
    let late = match_result_at(&mut state, &player("a", "Ann"), &report("s-a", 2, 0, 0), NOW, &order, &vec![]);
    assert_eq!(late.reply.unwrap(), ResultReply::AlreadyRecorded);
    assert!(late.forward.is_none());
    let next = match_result_at(&mut state, &player("a", "Ann"), &report("s-a", 3, 1, 0), NOW, &order, &vec![]);
    assert_eq!(next.reply.unwrap(), ResultReply::PendingPartner);
}

#[test]
fn it_does_not_matter_who_reports_first() {
    for (x, y) in [("a", "b"), ("b", "a")] {
        let mut state = paired();
        let order = keys(&state);
        let name = |p: &str| if p == "a" { "Ann" } else { "Bob" };
        match_result_at(&mut state, &player(x, name(x)), &report(&format!("s-{x}"), 0, 7, 4), NOW, &order, &vec![]);
        let second = match_result_at(&mut state, &player(y, name(y)), &report(&format!("s-{y}"), 0, 7, 4), NOW, &order, &vec![]);
        let p = second.forward.unwrap().payload;
        assert_eq!((p.winner_id.as_str(), p.loser_id.as_str(), p.winner_score, p.loser_score), ("a", "b", 7, 4));
    }
}

#[test]
fn on_equal_scores_the_joining_player_wins() {
    let mut state = paired();
    let order = keys(&state);
    match_result_at(&mut state, &player("a", "Ann"), &report("s-a", 0, 2, 2), NOW, &order, &vec![]);
    let second = match_result_at(&mut state, &player("b", "Bob"), &report("s-b", 0, 2, 2), NOW, &order, &vec![]);
    assert_eq!(second.forward.unwrap().payload.winner_id, "b");
}

#[test]
fn reports_that_differ_drop_each_other() {
    let mut state = paired();
    let order = keys(&state);
    match_result_at(&mut state, &player("a", "Ann"), &report("s-a", 1, 3, 5), NOW, &order, &vec![]);
    let second = match_result_at(&mut state, &player("b", "Bob"), &report("s-b", 1, 5, 3), NOW, &order, &vec![]);
    assert!(matches!(second.reply, Err(AppError::BadRequest(m)) if m == "Score mismatch with opponent's report — match not committed"));
    assert!(second.forward.is_none());
    assert!(state.pending_results.is_empty() && state.confirmed_results.is_empty());
    let incident = second.incident.unwrap();
    assert_eq!(incident.kind, "score_mismatch");
    assert_eq!(incident.summary, "a reported 3-5; b reported 5-3");
    assert_eq!(incident.room_id, "r1");
    assert_eq!(incident.session_ids, vec!["s-b".to_string()]);
    assert_eq!(incident.usernames, vec!["Bob".to_string()]);
    assert_eq!(incident.details.len(), 10);
    assert_eq!(incident.details[0].name, "result_id");
}

#[test]
fn reports_need_a_match() {
    let mut state = AppState::new(config());
    search(&mut state, &player("a", "Ann"), &lfg("1.1.1.1:1", "rom"), "s-a", "r0");
    let order = keys(&state);
    let res = match_result_at(&mut state, &player("a", "Ann"), &report("s-a", 0, 1, 0), NOW, &order, &vec![]);
    assert!(matches!(res.reply, Err(AppError::BadRequest(m)) if m == "Match not yet started"));
    let res = match_result_at(&mut state, &player("b", "Bob"), &report("s-a", 0, 1, 0), NOW, &order, &vec![]);
    assert!(matches!(res.reply, Err(AppError::Unauthorized(_))));
    let res = match_result_at(&mut state, &player("b", "Bob"), &report("s-x", 0, 1, 0), NOW, &order, &vec![]);
    assert!(matches!(res.reply, Err(AppError::NotFound(_))));
}

#[test]
fn a_partner_who_is_gone_or_seated_alike_settles_nothing() {
    let mut state = paired();
    let order = keys(&state);
    match_result_at(&mut state, &player("a", "Ann"), &report("s-a", 0, 1, 0), NOW, &order, &vec![]);
    state.queue.remove("s-a");
    let res = match_result_at(&mut state, &player("b", "Bob"), &report("s-b", 0, 1, 0), NOW, &order, &vec![]);
    assert!(matches!(res.reply, Err(AppError::BadRequest(m)) if m == "Opponent not found in queue"));
    assert!(state.confirmed_results.contains_key("r1#0"));

    let mut state = paired();
    let order = keys(&state);
    match_result_at(&mut state, &player("a", "Ann"), &report("s-a", 0, 1, 0), NOW, &order, &vec![]);
    if let Some(info) = &mut state.queue.get_mut("s-a").unwrap().match_info {
        info.role = PlayerRole::Join;
    }
    let res = match_result_at(&mut state, &player("b", "Bob"), &report("s-b", 0, 1, 0), NOW, &order, &vec![]);
    assert!(matches!(res.reply, Err(AppError::BadRequest(m)) if m == "Unexpected role pair"));
}

#[test]
fn result_ids_name_room_and_game() {
    assert_eq!(result_id_of("r#1", 20), "r#1#20");
}

#[test]
fn the_stats_service_is_tried_five_times() {
    let down = Attempt::Unreachable;
    assert_eq!(forward_to_stats_with_retry(0, Attempt::Answered(204)), NextStep::Done);
    assert_eq!(forward_to_stats_with_retry(0, Attempt::Answered(401)), NextStep::Rejected);
    assert_eq!(forward_to_stats_with_retry(0, Attempt::Answered(503)), NextStep::RetryAfter(1));
    assert_eq!(forward_to_stats_with_retry(1, down), NextStep::RetryAfter(3));
    assert_eq!(forward_to_stats_with_retry(2, Attempt::Answered(302)), NextStep::RetryAfter(8));
    assert_eq!(forward_to_stats_with_retry(3, down), NextStep::RetryAfter(20));
    assert_eq!(forward_to_stats_with_retry(4, down), NextStep::GiveUp);
    assert_eq!(forward_to_stats_with_retry(4, Attempt::Answered(200)), NextStep::Done);
}

#[test]
fn requests_carry_a_token() {
    let mut state = AppState::new(config());
    let (a, b) = (token("a", "Ann"), token("b", "Bob"));
    let first = looking_for_game(&mut state, &a, &lfg("1.1.1.1:1", "rom")).unwrap().0;
    let second = looking_for_game(&mut state, &b, &lfg("2.2.2.2:2", "rom")).unwrap().0;
    assert_eq!((first.status, second.status), (MatchStatus::Queued, MatchStatus::Matched));
    assert_eq!(first.session_id.len(), 36);
    assert_eq!(match_status(&state, &a, &first.session_id).unwrap().status, MatchStatus::Matched);
    let req = TurnReadyRequest { relayed_addr: "9.9.9.9:1".into() };
    turn_ready(&mut state, &a, &first.session_id, &req).unwrap();
    assert_eq!(peer_relay(&state, &b, &second.session_id).unwrap().peer_relayed_addr.as_deref(), Some("9.9.9.9:1"));
    let res = match_result(&mut state, &a, &report(&first.session_id, 0, 2, 1));
    assert_eq!(res.reply.unwrap(), ResultReply::PendingPartner);
    let res = match_result(&mut state, &b, &report(&second.session_id, 0, 2, 1));
    assert_eq!(res.reply.unwrap(), ResultReply::Recorded);
    assert_eq!(res.forward.unwrap().payload.winner_id, "a");
    cancel_queue(&mut state, &a).unwrap();
    assert_eq!(match_status(&state, &b, &second.session_id).unwrap().status, MatchStatus::Cancelled);
}

#[test]
fn requests_without_a_good_token_change_nothing() {
    let mut state = paired();
    let bad = issue_token(&player("a", "Ann"), "other").unwrap();
    assert!(matches!(looking_for_game(&mut state, &bad, &lfg("1.1.1.1:1", "rom")), Err(AppError::Unauthorized(_))));
    assert!(matches!(cancel_queue(&mut state, &bad), Err(AppError::Unauthorized(_))));
    assert!(matches!(match_status(&state, &bad, "s-a"), Err(AppError::Unauthorized(_))));
    assert!(matches!(match_result(&mut state, &bad, &report("s-a", 0, 1, 0)).reply, Err(AppError::Unauthorized(_))));
    assert_eq!(state.queue.len(), 2);
    assert!(!state.queue.get("s-a").unwrap().cancelled);
    assert!(state.pending_results.is_empty());
}
