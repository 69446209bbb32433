use signaling_server::auth::issue_token;
use signaling_server::challenges::{
    accept_challenge, accept_challenge_at, challenge_summary, decline_challenge,
    decline_challenge_for, list_challenges, list_challenges_at, send_challenge, send_challenge_at,
};
use signaling_server::config::{Config, EnvVars};
use signaling_server::discord::Notice;
use signaling_server::error::AppError;
use signaling_server::models::{
    AcceptChallengeRequest, CachedRating, ChallengeRequest, Claims, CreateRoomRequest,
    JoinRoomRequest, LobbyChatEntry, LobbyChatRequest, LobbyMatchFormat, MatchStatus, PlayerRole,
    SpectatorPushRequest,
};
use signaling_server::presence::{
    ensure_lobby_ratings, general_lobby, general_lobby_for, general_lobby_snapshot, keep_rating,
    lobby_chat, lobby_chat_at, touch_lobby_presence,
};
use signaling_server::queue::match_status_for;
use signaling_server::rooms::{
    create_room, create_room_at, join_room, join_room_at, list_lobbies,
};
use signaling_server::spectators::{
    live_matches, live_matches_in, spectator_push, spectator_push_at, spectator_state,
};
use signaling_server::state::AppState;
use signaling_server::time::Timestamp;

fn state() -> AppState {
    AppState::new(
        Config::from_env(EnvVars {
            discord_client_id: Some("client".into()),
            discord_client_secret: Some("hush".into()),
            discord_webhook_url: None,
            discord_redirect_uri: None,
            jwt_secret: Some("signing".into()),
            turn_server_ip: None,
            turn_shared_secret: None,
            turn_realm: None,
            stats_service_url: Some("https://stats//".into()),
            stats_api_key: None,
            github_issues_repo: None,
            github_issues_token: None,
        })
        .unwrap(),
    )
}

fn player(sub: &str, username: &str) -> Claims {
    Claims { sub: sub.into(), username: username.into(), email: None, exp: 4_102_444_800 }
}

fn token(sub: &str, username: &str) -> String {
    issue_token(&player(sub, username), "signing").unwrap()
}

fn room_request(name: Option<&str>, private: bool) -> CreateRoomRequest {
    CreateRoomRequest {
        stun_endpoint: "1.1.1.1:1".into(),
        app_version: "1.0".into(),
        rom_hash: "rom".into(),
        name: name.map(String::from),
        format: LobbyMatchFormat::Ft5,
        private,
    }
}

fn join_request(rom: &str) -> JoinRoomRequest {
    JoinRoomRequest { stun_endpoint: "2.2.2.2:2".into(), app_version: "1.0".into(), rom_hash: rom.into() }
}

fn challenge_request(target: &str) -> ChallengeRequest {
    ChallengeRequest {
        target_id: target.into(),
        stun_endpoint: "1.1.1.1:1".into(),
        app_version: "1.0".into(),
        rom_hash: "rom".into(),
        format: LobbyMatchFormat::Ft3,
    }
}

fn accept_request(rom: &str) -> AcceptChallengeRequest {
    AcceptChallengeRequest { stun_endpoint: "2.2.2.2:2".into(), app_version: "1.0".into(), rom_hash: rom.into() }
}

const NOW: Timestamp = Timestamp { nanos: 1_000_000_000_000 };

fn later(secs: i128) -> Timestamp {
    Timestamp { nanos: NOW.nanos + secs * 1_000_000_000 }
}

fn chat(message: &str) -> LobbyChatRequest {
    LobbyChatRequest { message: message.into() }
}

#[test]
fn a_room_waits_for_whoever_joins() {
    let mut s = state();
    let made = create_room_at(&mut s, &player("a", "Ann"), &room_request(Some(" My!! Room "), false), "room", "s-a", NOW).unwrap();
    assert_eq!((made.room_id.as_str(), made.creator_session_id.as_str()), ("room", "s-a"));
    let room = s.spar_rooms.get("room").unwrap().clone();
    assert_eq!((room.name.as_str(), room.creator_username.as_str(), room.format), ("My Room", "Ann", LobbyMatchFormat::Ft5));
    assert_eq!(match_status_for(&s, &player("a", "Ann"), "s-a").unwrap().status, MatchStatus::Queued);
    let (joined, notice) = join_room_at(&mut s, &player("b", "Bob"), "room", &join_request("rom"), "s-b", "r1", NOW).unwrap();
    assert_eq!(joined.session_id, "s-b");
    assert_eq!(joined.match_info.role, PlayerRole::Join);
    assert_eq!(joined.match_info.peer_endpoint, "1.1.1.1:1");
    assert_eq!(joined.match_info.room_id, "r1");
    assert_eq!(joined.match_info.punch_at_ms, 1_002_500);
    assert!(joined.match_info.turn.is_none());
    assert!(matches!(notice, Notice::Matched { first, second } if first == "Ann" && second == "Bob"));
    let a = match_status_for(&s, &player("a", "Ann"), "s-a").unwrap();
    assert_eq!(a.match_info.unwrap().peer_endpoint, "2.2.2.2:2");
    assert!(matches!(
        join_room_at(&mut s, &player("c", "Cy"), "room", &join_request("rom"), "s-c", "r2", NOW),
        Err(AppError::NotFound(m)) if m == "Room not found or already joined"
    ));
}

#[test]
fn a_refused_join_leaves_the_room() {
    let mut s = state();
    create_room_at(&mut s, &player("a", "Ann"), &room_request(None, false), "room", "s-a", NOW).unwrap();
    assert_eq!(s.spar_rooms.get("room").unwrap().name, "Ann");
    let own = join_room_at(&mut s, &player("a", "Ann"), "room", &join_request("rom"), "x", "y", NOW);
    assert!(matches!(own, Err(AppError::BadRequest(m)) if m == "Cannot join your own room"));
    let other = join_room_at(&mut s, &player("b", "Bob"), "room", &join_request("mor"), "x", "y", NOW);
    assert!(matches!(other, Err(AppError::BadRequest(m)) if m == "Room requires matching app version and ROM hash"));
    let mut req = join_request("rom");
    req.stun_endpoint = "nowhere".into();
    assert!(matches!(join_room_at(&mut s, &player("b", "Bob"), "room", &req, "x", "y", NOW), Err(AppError::BadRequest(m)) if m == "Invalid stun_endpoint"));
    assert!(s.spar_rooms.contains_key("room"));
    assert_eq!(s.queue.len(), 1);
}

#[test]
fn a_room_without_its_creator_is_used_up() {
    let open = |s: &mut AppState| {
        create_room_at(s, &player("a", "Ann"), &room_request(None, false), "room", "s-a", NOW).unwrap();
    };
    let join = |s: &mut AppState| match join_room_at(s, &player("b", "Bob"), "room", &join_request("rom"), "s-b", "r1", NOW) {
        Err(AppError::NotFound(m)) => m,
        _ => panic!(),
    };
    let mut s = state();
    open(&mut s);
    s.player_sessions.remove("a");
    assert_eq!(join(&mut s), "Room creator is no longer available");
    assert!(!s.spar_rooms.contains_key("room"));
    let mut s = state();
    open(&mut s);
    s.queue.remove("s-a");
    assert_eq!(join(&mut s), "Room creator session expired");
    let mut s = state();
    open(&mut s);
    s.queue.get_mut("s-a").unwrap().cancelled = true;
    assert_eq!(join(&mut s), "Room creator is no longer in queue");
    assert_eq!(s.queue.len(), 1);
    let mut s = state();
    open(&mut s);
    s.queue.get_mut("s-a").unwrap().rom_hash = "mor".into();
    assert_eq!(join(&mut s), "Room creator is no longer in queue");
    assert!(s.queue.get("s-a").unwrap().match_info.is_none());
    assert!(!s.spar_rooms.contains_key("room"));
}

#[test]
fn public_rooms_are_listed_by_name() {
    let mut s = state();
    for (id, name, private) in [("1", "beta", false), ("2", "alpha", false), ("0", "beta", false), ("3", "aaa", true)] {
        create_room_at(&mut s, &player(id, "Ann"), &room_request(Some(name), private), id, &format!("s{id}"), NOW).unwrap();
    }
    let listed: Vec<(String, String)> = list_lobbies(&s).lobbies.into_iter().map(|l| (l.name, l.id)).collect();
    let expected = [("alpha", "2"), ("beta", "0"), ("beta", "1")];
    assert_eq!(listed, expected.map(|(n, i)| (n.to_string(), i.to_string())));
}

#[test]
fn rooms_are_opened_and_joined_with_tokens() {
    let mut s = state();
    let made = create_room(&mut s, &token("a", "Ann"), &room_request(None, false)).unwrap();
    assert_ne!(made.room_id, made.creator_session_id);
    let (joined, _) = join_room(&mut s, &token("b", "Bob"), &made.room_id, &join_request("rom")).unwrap();
    assert_eq!(joined.match_info.username, "Ann");
    assert!(matches!(create_room(&mut s, "junk", &room_request(None, false)), Err(AppError::Unauthorized(_))));
    assert!(matches!(join_room(&mut s, "junk", "x", &join_request("rom")), Err(AppError::Unauthorized(_))));
}

fn challenged() -> AppState {
    let mut s = state();
    touch_lobby_presence(&mut s, &player("b", "Bob"), "online", NOW);
    let sent = send_challenge_at(&mut s, &player("a", "Ann"), &challenge_request("b"), "ch", "s-a", NOW).unwrap();
    assert_eq!((sent.challenge_id.as_str(), sent.challenger_session_id.as_str(), sent.status.as_str()), ("ch", "s-a", "pending"));
    s
}

#[test]
fn challenges_are_sent_to_those_present() {
    let mut s = challenged();
    assert_eq!(s.lobby_presence.get("a").unwrap().status, "challenging");
    let c = s.challenges.get("ch").unwrap().clone();
    assert_eq!((c.target_username.as_str(), c.challenger_username.as_str()), ("Bob", "Ann"));
    let to = |s: &mut AppState, target: &str, stun: &str| {
        let mut req = challenge_request(target);
        req.stun_endpoint = stun.into();
        send_challenge_at(s, &player("a", "Ann"), &req, "x", "y", NOW).err().unwrap().message()
    };
    assert_eq!(to(&mut s, "a", "1:1"), "Cannot challenge yourself");
    assert_eq!(to(&mut s, "z", "1:1"), "Target player is not in the lobby");
    assert_eq!(to(&mut s, "b", ""), "Invalid stun_endpoint");
    assert_eq!(s.challenges.len(), 1);
}

#[test]
fn an_accepted_challenge_is_a_match() {
    let mut s = challenged();
    touch_lobby_presence(&mut s, &player("a", "Ann"), "online", NOW);
    send_challenge_at(&mut s, &player("c", "Cy"), &challenge_request("a"), "ch2", "s-c", NOW).unwrap();
    touch_lobby_presence(&mut s, &player("d", "Di"), "online", NOW);
    send_challenge_at(&mut s, &player("e", "Ed"), &challenge_request("d"), "ch3", "s-e", NOW).unwrap();
    let (joined, notice) = accept_challenge_at(&mut s, &player("b", "Bob"), "ch", &accept_request("rom"), "s-b", "r1", NOW).unwrap();
    assert_eq!((joined.session_id.as_str(), joined.match_info.username.as_str()), ("s-b", "Ann"));
    assert!(matches!(notice, Notice::Matched { first, second } if first == "Ann" && second == "Bob"));
    assert_eq!(match_status_for(&s, &player("a", "Ann"), "s-a").unwrap().status, MatchStatus::Matched);
    assert_eq!(match_status_for(&s, &player("b", "Bob"), "s-b").unwrap().status, MatchStatus::Matched);
    assert_eq!(match_status_for(&s, &player("c", "Cy"), "s-c").unwrap().status, MatchStatus::Cancelled);
    assert_eq!(match_status_for(&s, &player("e", "Ed"), "s-e").unwrap().status, MatchStatus::Queued);
    let left: Vec<String> = s.challenges.iter().map(|c| c.key().clone()).collect();
    assert_eq!(left, vec!["ch3".to_string()]);
}

#[test]
fn a_refused_acceptance_leaves_the_challenge() {
    let mut s = challenged();
    let accept = |s: &mut AppState, who: &str, id: &str, rom: &str| {
        accept_challenge_at(s, &player(who, "X"), id, &accept_request(rom), "s-b", "r1", NOW).err().unwrap().message()
    };
    assert_eq!(accept(&mut s, "c", "ch", "rom"), "Challenge does not belong to you");
    assert_eq!(accept(&mut s, "b", "ch", "mor"), "Challenge requires matching app version and ROM hash");
    assert_eq!(accept(&mut s, "b", "none", "rom"), "Challenge not found or expired");
    assert!(s.challenges.contains_key("ch"));
    s.queue.get_mut("s-a").unwrap().cancelled = true;
    assert_eq!(accept(&mut s, "b", "ch", "rom"), "Challenger is no longer available");
    assert!(!s.challenges.contains_key("ch"));
    let mut s = challenged();
    s.queue.remove("s-a");
    assert_eq!(accept(&mut s, "b", "ch", "rom"), "Challenger session expired");
}

#[test]
fn a_declined_challenge_ends_the_wait() {
    let mut s = challenged();
    assert!(matches!(decline_challenge_for(&mut s, &player("c", "Cy"), "ch"), Err(AppError::Unauthorized(_))));
    assert!(matches!(decline_challenge_for(&mut s, &player("b", "Bob"), "no"), Err(AppError::NotFound(_))));
    decline_challenge_for(&mut s, &player("b", "Bob"), "ch").unwrap();
    assert!(s.challenges.is_empty());
    assert_eq!(match_status_for(&s, &player("a", "Ann"), "s-a").unwrap().status, MatchStatus::Cancelled);
    assert!(!s.player_sessions.contains_key("a"));
    let mut s = challenged();
    s.player_sessions.insert("a".into(), "newer".into());
    decline_challenge_for(&mut s, &player("a", "Ann"), "ch").unwrap();
    assert_eq!(s.player_sessions.get("a").unwrap().as_str(), "newer");
}

#[test]
fn challenges_are_listed_with_their_direction() {
    let mut s = challenged();
    touch_lobby_presence(&mut s, &player("a", "Ann"), "online", NOW);
    send_challenge_at(&mut s, &player("b", "Bob"), &challenge_request("a"), "ch2", "s-b", later(1)).unwrap();
    let list = list_challenges_at(&mut s, &player("b", "Bob"), later(2)).challenges;
    let shown: Vec<(&str, &str)> = list.iter().map(|c| (c.challenge_id.as_str(), c.direction.as_str())).collect();
    assert_eq!(shown, vec![("ch", "incoming"), ("ch2", "outgoing")]);
    assert_eq!(list[0].created_at, "1970-01-01T00:16:40+00:00");
    assert_eq!(s.lobby_presence.get("b").unwrap().last_seen, later(2));
    assert!(list_challenges_at(&mut s, &player("z", "Zed"), NOW).challenges.is_empty());
    let c = s.challenges.get("ch").unwrap().clone();
    let shown = challenge_summary(&c, "sideways");
    assert_eq!((shown.direction.as_str(), shown.target_id.as_str(), shown.format), ("sideways", "b", LobbyMatchFormat::Ft3));
}

#[test]
fn challenges_take_tokens() {
    let mut s = state();
    let (a, b) = (token("a", "Ann"), token("b", "Bob"));
    general_lobby(&mut s, Some(&b));
    let sent = send_challenge(&mut s, &a, &challenge_request("b")).unwrap();
    assert_eq!(list_challenges(&mut s, &b).unwrap().challenges.len(), 1);
    accept_challenge(&mut s, &b, &sent.challenge_id, &accept_request("rom")).unwrap();
    let sent = send_challenge(&mut s, &a, &challenge_request("b")).unwrap();
    decline_challenge(&mut s, &b, &sent.challenge_id).unwrap();
    for res in [
        send_challenge(&mut s, "junk", &challenge_request("b")).err(),
        list_challenges(&mut s, "junk").err(),
        accept_challenge(&mut s, "junk", "x", &accept_request("rom")).err(),
        decline_challenge(&mut s, "junk", "x").err(),
    ] {
        assert!(matches!(res, Some(AppError::Unauthorized(_))));
    }
}

#[test]
fn the_lobby_shows_who_is_there() {
    let mut s = state();
    touch_lobby_presence(&mut s, &player("2", "Bob"), "online", NOW);
    touch_lobby_presence(&mut s, &player("1", "Bob"), "chatting", NOW);
    touch_lobby_presence(&mut s, &player("3", "Ann"), "online", later(-91));
    touch_lobby_presence(&mut s, &player("4", "Abe"), "online", later(-90));
    keep_rating(&mut s, "1", 1500, NOW);
    let shown = general_lobby_snapshot(&s, NOW);
    assert_eq!(shown.status, "General lobby ready");
    let users: Vec<(&str, &str, Option<i32>)> =
        shown.users.iter().map(|u| (u.username.as_str(), u.player_id.as_str(), u.rating)).collect();
    assert_eq!(users, vec![("Abe", "4", None), ("Bob", "1", Some(1500)), ("Bob", "2", None)]);
    assert!(shown.chat.is_empty());
}

#[test]
fn the_lobby_shows_the_latest_messages() {
    let mut s = state();
    for i in 0..55i128 {
        lobby_chat_at(&mut s, &player("1", "Bob"), &chat(&format!("m{i}")), &format!("id{i}"), later(i)).unwrap();
    }
    let shown = general_lobby_snapshot(&s, later(60));
    assert_eq!(shown.chat.len(), 50);
    assert_eq!(shown.chat[0].message, "m5");
    assert_eq!(shown.chat[49].message, "m54");
    assert_eq!(shown.chat[49].timestamp, "1970-01-01T00:17:34+00:00");
    assert_eq!(s.lobby_presence.get("1").unwrap().status, "chatting");
}

#[test]
fn messages_of_one_moment_are_ordered_by_player_and_id() {
    let s = state();
    for (id, who) in [("z", "1"), ("a", "2"), ("b", "1")] {
        s.lobby_chat.insert(
            id.into(),
            LobbyChatEntry { message_id: id.into(), player_id: who.into(), username: "X".into(), message: id.into(), created_at: NOW },
        );
    }
    let shown = general_lobby_snapshot(&s, NOW).chat;
    let order: Vec<&str> = shown.iter().map(|m| m.message.as_str()).collect();
    assert_eq!(order, vec!["b", "z", "a"]);
}

#[test]
fn bad_messages_are_not_kept() {
    let mut s = state();
    assert!(lobby_chat_at(&mut s, &player("1", "Bob"), &chat("  "), "id", NOW).is_err());
    assert!(s.lobby_chat.is_empty() && s.lobby_presence.is_empty());
    lobby_chat(&mut s, &token("1", "Bob"), &chat(" hi ")).unwrap();
    assert_eq!(s.lobby_chat.iter().next().unwrap().message, "hi");
    assert!(matches!(lobby_chat(&mut s, "junk", &chat("hi")), Err(AppError::Unauthorized(_))));
    assert_eq!(s.lobby_chat.len(), 1);
}

#[test]
fn anyone_may_look_in() {
    let mut s = state();
    let (shown, fetches) = general_lobby(&mut s, None);
    assert!(shown.users.is_empty() && fetches.is_empty());
    let (shown, _) = general_lobby(&mut s, Some("junk"));
    assert!(shown.users.is_empty());
    let (shown, fetches) = general_lobby(&mut s, Some(&token("1", "Bob")));
    assert_eq!(shown.users.len(), 1);
    assert_eq!(fetches.len(), 1);
    let (shown, _) = general_lobby_for(&mut s, Some(&player("2", "Al")), Timestamp::now());
    assert_eq!(shown.users.len(), 2);
}

#[test]
fn ratings_are_fetched_when_missing_or_old() {
    let mut s = state();
    touch_lobby_presence(&mut s, &player("new", "A"), "online", NOW);
    touch_lobby_presence(&mut s, &player("fresh", "B"), "online", NOW);
    touch_lobby_presence(&mut s, &player("old", "C"), "online", NOW);
    touch_lobby_presence(&mut s, &player("gone", "D"), "online", later(-91));
    s.ratings.insert("fresh".into(), CachedRating { rating: 1, fetched_at: later(-300) });
    s.ratings.insert("old".into(), CachedRating { rating: 1, fetched_at: later(-301) });
    let mut urls: Vec<String> = ensure_lobby_ratings(&s, NOW).into_iter().map(|f| f.url).collect();
    urls.sort();
    assert_eq!(urls, vec!["https://stats/player/new".to_string(), "https://stats/player/old".to_string()]);
    s.config.stats_service_url = None;
    assert!(ensure_lobby_ratings(&s, NOW).is_empty());
}

fn matched() -> AppState {
    let mut s = state();
    create_room_at(&mut s, &player("a", "Ann"), &room_request(None, false), "room", "s-a", NOW).unwrap();
    join_room_at(&mut s, &player("b", "Bob"), "room", &join_request("rom"), "s-b", "r1", NOW).unwrap();
    s
}

fn frame(n: u32, p1: u16, p2: u16) -> SpectatorPushRequest {
    SpectatorPushRequest { savestate: "st".into(), inputs: "in".into(), frame: n, score_p1: p1, score_p2: p2 }
}

fn order(keys: &[&str]) -> Vec<String> {
    keys.iter().map(|k| k.to_string()).collect()
}

#[test]
fn spectators_see_the_latest_frame() {
    let mut s = matched();
    assert!(spectator_state(&s, "s-b").is_none());
    spectator_push_at(&mut s, &player("b", "Bob"), "s-b", &frame(7, 1, 2), NOW, &order(&["s-b", "s-a"])).unwrap();
    let shown = spectator_state(&s, "s-b").unwrap();
    assert_eq!((shown.frame, shown.score_p1, shown.score_p2), (7, 1, 2));
    assert_eq!((shown.savestate.as_str(), shown.inputs.as_str()), ("st", "in"));
    assert_eq!((shown.p1_username.as_str(), shown.p2_username.as_str()), ("Bob", "Ann"));
    spectator_push_at(&mut s, &player("b", "Bob"), "s-b", &frame(8, 1, 2), NOW, &order(&[])).unwrap();
    let shown = spectator_state(&s, "s-b").unwrap();
    assert_eq!((shown.frame, shown.p2_username.as_str()), (8, "Opponent"));
}

#[test]
fn only_owners_push_frames() {
    let mut s = matched();
    assert!(matches!(spectator_push_at(&mut s, &player("a", "Ann"), "s-b", &frame(7, 1, 2), NOW, &order(&[])), Err(AppError::Unauthorized(_))));
    assert!(matches!(spectator_push_at(&mut s, &player("a", "Ann"), "zz", &frame(7, 1, 2), NOW, &order(&[])), Err(AppError::NotFound(_))));
    assert!(matches!(spectator_push(&mut s, "junk", "s-b", &frame(7, 1, 2)), Err(AppError::Unauthorized(_))));
    assert!(s.spectator_frames.is_empty());
    spectator_push(&mut s, &token("b", "Bob"), "s-b", &frame(7, 1, 2)).unwrap();
    assert_eq!(spectator_state(&s, "s-b").unwrap().p2_username, "Ann");
}

#[test]
fn a_frame_before_the_match_has_no_opponent() {
    let mut s = state();
    create_room_at(&mut s, &player("a", "Ann"), &room_request(None, false), "room", "s-a", NOW).unwrap();
    spectator_push_at(&mut s, &player("a", "Ann"), "s-a", &frame(1, 0, 0), NOW, &order(&["s-a"])).unwrap();
    assert_eq!(spectator_state(&s, "s-a").unwrap().p2_username, "Opponent");
}

#[test]
fn live_matches_are_shown_once() {
    let mut s = matched();
    let feed = live_matches_in(&s, &order(&["s-b", "s-a"])).matches;
    assert_eq!(feed.len(), 1);
    assert_eq!((feed[0].p1_username.as_str(), feed[0].p2_username.as_str()), ("Ann", "Bob"));
    assert_eq!((feed[0].score_p1, feed[0].score_p2, feed[0].started_at.as_str()), (0, 0, "00:16"));
    spectator_push_at(&mut s, &player("a", "Ann"), "s-a", &frame(7, 60_000, 60_000), NOW, &order(&[])).unwrap();
    for keys in [["s-b", "s-a"], ["s-a", "s-b"]] {
        let feed = live_matches_in(&s, &order(&keys)).matches;
        assert_eq!(feed.len(), 1);
        assert_eq!((feed[0].room_id.as_str(), feed[0].score_p1), ("r1", 60_000));
    }
    assert_eq!(live_matches(&s).matches.len(), 1);
    s.queue.get_mut("s-a").unwrap().cancelled = true;
    assert_eq!(live_matches(&s).matches[0].score_p1, 0);
    s.queue.get_mut("s-b").unwrap().cancelled = true;
    assert!(live_matches(&s).matches.is_empty());
}

#[test]
fn matches_with_a_score_come_first() {
    let mut s = matched();
    create_room_at(&mut s, &player("c", "Cy"), &room_request(None, false), "room", "s-c", NOW).unwrap();
    join_room_at(&mut s, &player("d", "Di"), "room", &join_request("rom"), "s-d", "r2", NOW).unwrap();
    spectator_push_at(&mut s, &player("d", "Di"), "s-d", &frame(7, 0, 1), NOW, &order(&[])).unwrap();
    let feed = live_matches_in(&s, &order(&["s-a", "s-b", "s-c", "s-d"])).matches;
    let rooms: Vec<&str> = feed.iter().map(|m| m.room_id.as_str()).collect();
    assert_eq!(rooms, vec!["r2", "r1"]);
}
