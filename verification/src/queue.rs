//! Waiting for an opponent, and what follows once one is found.

use vstd::prelude::*;
use crate::auth::{signed_claims, token_refused, verify_token};
use crate::discord::{Notice, NoticeModel};
use crate::error::{outcome, AppError, AppErrorModel};
use crate::ids::{new_uuid, uuid_text};
use crate::models::{
    Claims, ClaimsModel, LfgRequest, LfgRequestModel, LfgResponse, LfgResponseModel, MatchStatus,
    MatchStatusResponse, MatchStatusResponseModel, PeerRelayResponse, PeerRelayResponseModel,
    PlayerRole, QueueEntry, QueueEntryModel, TurnReadyRequest, TurnReadyRequestModel,
};
use crate::sessions::{
    cancel_one, cancel_others, cancel_partners, cancel_session, cancelled, endpoint, find_opponent,
    find_partner, first_opponent, first_partner, is_endpoint, is_in_room, matched, meet, meeting,
    open_session, opened, partner,
};
use crate::state::{AppState, StateModel};
use crate::table::{self, lists_keys};
use crate::text::same_text;
use crate::time::Timestamp;

verus! {

// Looking for an opponent

/// The state once a player's previous session is gone. If that session was in a
/// match that still stood, the others in its room are told that it is off.
pub open spec fn requeued(s: StateModel, player: Seq<char>) -> StateModel {
    if s.player_sessions.contains_key(player) && s.queue.contains_key(s.player_sessions[player]) {
        let previous = s.queue[s.player_sessions[player]];
        let rest = s.queue.remove(s.player_sessions[player]);
        StateModel {
            queue: if previous.match_info is Some && !previous.cancelled {
                cancel_partners(rest, player, previous.match_info->0.room_id)
            } else {
                rest
            },
            ..s
        }
    } else {
        s
    }
}

/// The state once a player holds a new session.
pub open spec fn session_added(s: StateModel, e: QueueEntryModel) -> StateModel {
    StateModel {
        queue: s.queue.insert(e.session_id, e),
        player_sessions: s.player_sessions.insert(e.discord_id, e.session_id),
        ..s
    }
}

/// The state once the waiting session `host_id` is matched with a new session of
/// `player`, who joins.
pub open spec fn paired(
    s: StateModel,
    host_id: Seq<char>,
    host_username: Seq<char>,
    player: ClaimsModel,
    stun_endpoint: Seq<char>,
    app_version: Seq<char>,
    rom_hash: Seq<char>,
    session_id: Seq<char>,
    room_id: Seq<char>,
    now: Timestamp,
) -> StateModel {
    let host = s.queue[host_id];
    let told = matched(
        host,
        meeting(s.config, PlayerRole::Host, stun_endpoint, player.username, room_id, now),
    );
    session_added(
        StateModel { queue: s.queue.insert(host_id, told), ..s },
        opened(
            session_id,
            player.sub,
            player.username,
            stun_endpoint,
            app_version,
            rom_hash,
            now,
            Some(
                meeting(s.config, PlayerRole::Join, host.stun_endpoint, host_username, room_id, now),
            ),
        ),
    )
}

/// What a request for an opponent comes to, where sessions are met in `order`.
pub open spec fn lfg(
    s: StateModel,
    player: ClaimsModel,
    req: LfgRequestModel,
    session_id: Seq<char>,
    room_id: Seq<char>,
    now: Timestamp,
    order: Seq<Seq<char>>,
) -> (StateModel, Result<(LfgResponseModel, NoticeModel), AppErrorModel>) {
    if !endpoint(req.stun_endpoint) {
        (s, Err(AppErrorModel::BadRequest("Invalid stun_endpoint"@)))
    } else {
        let r = requeued(s, player.sub);
        match first_opponent(order, r.queue, player.sub, req.app_version, req.rom_hash) {
            Some(host_id) => (
                paired(
                    r,
                    host_id,
                    r.queue[host_id].username,
                    player,
                    req.stun_endpoint,
                    req.app_version,
                    req.rom_hash,
                    session_id,
                    room_id,
                    now,
                ),
                Ok(
                    (
                        LfgResponseModel { session_id, status: MatchStatus::Matched },
                        NoticeModel::Matched {
                            first: player.username,
                            second: r.queue[host_id].username,
                        },
                    ),
                ),
            ),
            None => (
                session_added(
                    r,
                    opened(
                        session_id,
                        player.sub,
                        player.username,
                        req.stun_endpoint,
                        req.app_version,
                        req.rom_hash,
                        now,
                        None,
                    ),
                ),
                Ok(
                    (
                        LfgResponseModel { session_id, status: MatchStatus::Queued },
                        NoticeModel::Lfg { username: player.username },
                    ),
                ),
            ),
        }
    }
}

/// Drops a player's previous session.
pub fn drop_previous(state: &mut AppState, player: &str)
    ensures
        final(state)@ == requeued(old(state)@, player@),
{
    if let Some(sid) = table::get(&state.player_sessions, player) {
        if let Some(previous) = table::remove(&mut state.queue, sid.as_str()) {
            if !previous.cancelled {
                if let Some(info) = &previous.match_info {
                    cancel_others(&mut state.queue, player, info.room_id.as_str());
                }
            }
        } else {
            proof {
                assert(old(state)@.queue.remove(sid@) == old(state)@.queue);
            }
        }
    }
}

/// Gives a player a new session.
pub fn add_session(state: &mut AppState, e: QueueEntry)
    ensures
        final(state)@ == session_added(old(state)@, e@),
{
    table::insert(&mut state.player_sessions, e.discord_id.clone(), e.session_id.clone());
    table::insert(&mut state.queue, e.session_id.clone(), e);
}

/// Matches a waiting session with a new session of `player`, who joins.
pub fn pair(
    state: &mut AppState,
    host_id: &str,
    host_username: &str,
    player: &Claims,
    stun_endpoint: &str,
    app_version: &str,
    rom_hash: &str,
    session_id: &str,
    room_id: &str,
    now: Timestamp,
)
    requires
        old(state)@.queue.contains_key(host_id@),
    ensures
        final(state)@ == paired(
            old(state)@,
            host_id@,
            host_username@,
            player@,
            stun_endpoint@,
            app_version@,
            rom_hash@,
            session_id@,
            room_id@,
            now,
        ),
{
    if let Some(mut host) = table::remove(&mut state.queue, host_id) {
        let told = meet(
            &state.config,
            PlayerRole::Host,
            stun_endpoint,
            player.username.as_str(),
            room_id,
            now,
        );
        let info = meet(
            &state.config,
            PlayerRole::Join,
            host.stun_endpoint.as_str(),
            host_username,
            room_id,
            now,
        );
        host.match_info = Some(told);
        let ghost met = host@;
        table::insert(&mut state.queue, host_id.to_string(), host);
        proof {
            assert(state@.queue == old(state)@.queue.insert(host_id@, met));
        }
        let e = open_session(
            session_id,
            player.sub.as_str(),
            player.username.as_str(),
            stun_endpoint,
            app_version,
            rom_hash,
            now,
            Some(info),
        );
        add_session(state, e);
    }
}

/// Finds a player an opponent, or has them wait. Sessions are met in `order`;
/// the first one that can be the opponent's is taken.
pub fn looking_for_game_at(
    state: &mut AppState,
    player: &Claims,
    req: &LfgRequest,
    session_id: &str,
    room_id: &str,
    now: Timestamp,
    order: &Vec<String>,
) -> (res: Result<(LfgResponse, Notice), AppError>)
    ensures
        (final(state)@, outcome(res)) == lfg(
            old(state)@,
            player@,
            req@,
            session_id@,
            room_id@,
            now,
            order.deep_view(),
        ),
{
    if !is_endpoint(req.stun_endpoint.as_str()) {
        return Err(AppError::bad_request("Invalid stun_endpoint"));
    }
    drop_previous(state, player.sub.as_str());
    let found = find_opponent(
        order,
        &state.queue,
        player.sub.as_str(),
        req.app_version.as_str(),
        req.rom_hash.as_str(),
    );
    match found {
        Some((host_id, host)) => {
            pair(
                state,
                host_id.as_str(),
                host.username.as_str(),
                player,
                req.stun_endpoint.as_str(),
                req.app_version.as_str(),
                req.rom_hash.as_str(),
                session_id,
                room_id,
                now,
            );
            Ok(
                (
                    LfgResponse { session_id: session_id.to_string(), status: MatchStatus::Matched },
                    Notice::Matched { first: player.username.clone(), second: host.username },
                ),
            )
        },
        None => {
            let e = open_session(
                session_id,
                player.sub.as_str(),
                player.username.as_str(),
                req.stun_endpoint.as_str(),
                req.app_version.as_str(),
                req.rom_hash.as_str(),
                now,
                None,
            );
            add_session(state, e);
            Ok(
                (
                    LfgResponse { session_id: session_id.to_string(), status: MatchStatus::Queued },
                    Notice::Lfg { username: player.username.clone() },
                ),
            )
        },
    }
}

/// Finds the caller an opponent, or has them wait.
pub fn looking_for_game(state: &mut AppState, token: &str, req: &LfgRequest) -> (res: Result<
    (LfgResponse, Notice),
    AppError,
>)
    ensures
        token_refused(res, token@, old(state)@.config.jwt_secret) ==> final(state)@ == old(state)@,
        !token_refused(res, token@, old(state)@.config.jwt_secret) ==> exists|
            player: ClaimsModel,
            session_id: Seq<char>,
            room_id: Seq<char>,
            now: Timestamp,
            order: Seq<Seq<char>>,
        |
            signed_claims(token@, old(state)@.config.jwt_secret) == Some(player) && uuid_text(
                session_id,
            ) && uuid_text(room_id) && now.nanos >= 0 && lists_keys(
                order,
                old(state)@.queue,
            ) && (final(state)@, outcome(res)) == #[trigger] lfg(
                old(state)@,
                player,
                req@,
                session_id,
                room_id,
                now,
                order,
            ),
{
    let player = match verify_token(token, state.config.jwt_secret.as_str()) {
        Ok(player) => player,
        Err(e) => {
            return Err(e);
        },
    };
    let session_id = new_uuid();
    let room_id = new_uuid();
    let now = Timestamp::now();
    let order = table::keys(&state.queue);
    looking_for_game_at(state, &player, req, session_id.as_str(), room_id.as_str(), now, &order)
}

// Polling, and calling off

/// Whether another player of a room has called the match off.
pub open spec fn called_off(
    queue: Map<Seq<char>, QueueEntryModel>,
    player: Seq<char>,
    room_id: Seq<char>,
) -> bool {
    exists|k: Seq<char>|
        #[trigger] queue.contains_key(k) && partner(queue[k], player, room_id) && queue[k].cancelled
}

/// Why a player may not use a session, if they may not.
pub open spec fn session_refusal(
    s: StateModel,
    player: Seq<char>,
    session_id: Seq<char>,
) -> Option<AppErrorModel> {
    if !s.queue.contains_key(session_id) {
        Some(AppErrorModel::NotFound("Session not found"@))
    } else if s.queue[session_id].discord_id != player {
        Some(AppErrorModel::Unauthorized("Session does not belong to you"@))
    } else {
        None
    }
}

/// Where a session stands. A match that either side has called off is off for
/// both.
pub open spec fn session_status(
    s: StateModel,
    player: Seq<char>,
    session_id: Seq<char>,
) -> Result<MatchStatusResponseModel, AppErrorModel> {
    let e = s.queue[session_id];
    match session_refusal(s, player, session_id) {
        Some(refusal) => Err(refusal),
        None => if e.cancelled || (e.match_info is Some && called_off(
            s.queue,
            player,
            e.match_info->0.room_id,
        )) {
            Ok(MatchStatusResponseModel { status: MatchStatus::Cancelled, match_info: None })
        } else if e.match_info is Some {
            Ok(MatchStatusResponseModel { status: MatchStatus::Matched, match_info: e.match_info })
        } else {
            Ok(MatchStatusResponseModel { status: MatchStatus::Queued, match_info: None })
        },
    }
}

/// A player's session, or why they may not use it.
pub(crate) fn own_session(state: &AppState, player: &str, session_id: &str) -> (res: Result<
    QueueEntry,
    AppError,
>)
    ensures
        match res {
            Ok(e) => session_refusal(state@, player@, session_id@) is None && e@
                == state@.queue[session_id@] && e@.discord_id == player@,
            Err(refusal) => session_refusal(state@, player@, session_id@) == Some(refusal@),
        },
{
    let Some(e) = table::get(&state.queue, session_id) else {
        return Err(AppError::not_found("Session not found"));
    };
    if !same_text(e.discord_id.as_str(), player) {
        return Err(AppError::unauthorized("Session does not belong to you"));
    }
    Ok(e)
}

/// Whether another player of a room has called the match off.
pub fn is_called_off(state: &AppState, player: &str, room_id: &str) -> (res: bool)
    ensures
        res == called_off(state@.queue, player@, room_id@),
{
    let keys = table::keys(&state.queue);
    let ghost rows = state@.queue;
    let mut i: usize = 0;
    while i < keys.len()
        invariant
            i <= keys.len(),
            rows == state@.queue,
            lists_keys(keys.deep_view(), rows),
            forall|j: int|
                0 <= j < i ==> !(partner(
                    rows[#[trigger] keys.deep_view()[j]],
                    player@,
                    room_id@,
                ) && rows[keys.deep_view()[j]].cancelled),
        decreases keys.len() - i,
    {
        proof {
            assert(keys.deep_view().contains(keys.deep_view()[i as int]));
        }
        if let Some(e) = table::get(&state.queue, keys[i].as_str()) {
            if e.cancelled && !same_text(e.discord_id.as_str(), player) && is_in_room(&e, room_id) {
                proof {
                    assert(rows.contains_key(keys.deep_view()[i as int]));
                }
                return true;
            }
        }
        i += 1;
    }
    proof {
        assert forall|k: Seq<char>| #[trigger] rows.contains_key(k) implies !(partner(
            rows[k],
            player@,
            room_id@,
        ) && rows[k].cancelled) by {
            assert(keys.deep_view().contains(k));
        }
    }
    false
}

/// Where a player's session stands.
pub fn match_status_for(state: &AppState, player: &Claims, session_id: &str) -> (res: Result<
    MatchStatusResponse,
    AppError,
>)
    ensures
        outcome(res) == session_status(state@, player@.sub, session_id@),
{
    let e = match own_session(state, player.sub.as_str(), session_id) {
        Ok(e) => e,
        Err(refusal) => {
            return Err(refusal);
        },
    };
    if e.cancelled {
        return Ok(MatchStatusResponse { status: MatchStatus::Cancelled, match_info: None });
    }
    match e.match_info {
        Some(info) => {
            if is_called_off(state, player.sub.as_str(), info.room_id.as_str()) {
                Ok(MatchStatusResponse { status: MatchStatus::Cancelled, match_info: None })
            } else {
                Ok(MatchStatusResponse { status: MatchStatus::Matched, match_info: Some(info) })
            }
        },
        None => Ok(MatchStatusResponse { status: MatchStatus::Queued, match_info: None }),
    }
}

/// Where the caller's session stands.
pub fn match_status(state: &AppState, token: &str, session_id: &str) -> (res: Result<
    MatchStatusResponse,
    AppError,
>)
    ensures
        !token_refused(res, token@, state@.config.jwt_secret) ==> exists|player: ClaimsModel|
            signed_claims(token@, state@.config.jwt_secret) == Some(player) && outcome(res)
                == #[trigger] session_status(state@, player.sub, session_id@),
{
    match verify_token(token, state.config.jwt_secret.as_str()) {
        Ok(player) => match_status_for(state, &player, session_id),
        Err(e) => Err(e),
    }
}

/// The state once a player has left the queue.
pub open spec fn queue_cancelled(s: StateModel, player: Seq<char>) -> StateModel {
    if s.player_sessions.contains_key(player) {
        StateModel {
            queue: cancel_one(s.queue, s.player_sessions[player]),
            player_sessions: s.player_sessions.remove(player),
            ..s
        }
    } else {
        s
    }
}

/// Takes a player out of the queue.
pub fn cancel_queue_for(state: &mut AppState, player: &Claims)
    ensures
        final(state)@ == queue_cancelled(old(state)@, player@.sub),
{
    if let Some(sid) = table::remove(&mut state.player_sessions, player.sub.as_str()) {
        cancel_session(&mut state.queue, sid.as_str());
    } else {
        proof {
            assert(state@.player_sessions == old(state)@.player_sessions);
        }
    }
}

/// Takes the caller out of the queue.
pub fn cancel_queue(state: &mut AppState, token: &str) -> (res: Result<(), AppError>)
    ensures
        token_refused(res, token@, old(state)@.config.jwt_secret) ==> final(state)@ == old(state)@,
        !token_refused(res, token@, old(state)@.config.jwt_secret) ==> res is Ok && exists|
            player: ClaimsModel,
        |
            signed_claims(token@, old(state)@.config.jwt_secret) == Some(player) && final(state)@
                == #[trigger] queue_cancelled(old(state)@, player.sub),
{
    let player = match verify_token(token, state.config.jwt_secret.as_str()) {
        Ok(player) => player,
        Err(e) => {
            return Err(e);
        },
    };
    cancel_queue_for(state, &player);
    Ok(())
}

// Relayed addresses

/// What a report of a relayed address comes to.
pub open spec fn relay_reported(
    s: StateModel,
    player: Seq<char>,
    session_id: Seq<char>,
    req: TurnReadyRequestModel,
) -> (StateModel, Result<(), AppErrorModel>) {
    if !endpoint(req.relayed_addr) {
        (s, Err(AppErrorModel::BadRequest("Invalid relayed_addr"@)))
    } else {
        match session_refusal(s, player, session_id) {
            Some(refusal) => (s, Err(refusal)),
            None => (
                StateModel {
                    queue: s.queue.insert(
                        session_id,
                        QueueEntryModel {
                            relayed_addr: Some(req.relayed_addr),
                            ..s.queue[session_id]
                        },
                    ),
                    ..s
                },
                Ok(()),
            ),
        }
    }
}

/// Notes a player's relayed address.
pub fn turn_ready_for(
    state: &mut AppState,
    player: &Claims,
    session_id: &str,
    req: &TurnReadyRequest,
) -> (res: Result<(), AppError>)
    ensures
        (final(state)@, outcome(res)) == relay_reported(
            old(state)@,
            player@.sub,
            session_id@,
            req@,
        ),
{
    if !is_endpoint(req.relayed_addr.as_str()) {
        return Err(AppError::bad_request("Invalid relayed_addr"));
    }
    let mut e = match own_session(state, player.sub.as_str(), session_id) {
        Ok(e) => e,
        Err(refusal) => {
            return Err(refusal);
        },
    };
    e.relayed_addr = Some(req.relayed_addr.clone());
    table::insert(&mut state.queue, session_id.to_string(), e);
    Ok(())
}

/// Notes the caller's relayed address, for the opponent to poll.
pub fn turn_ready(state: &mut AppState, token: &str, session_id: &str, req: &TurnReadyRequest) -> (res:
    Result<(), AppError>)
    ensures
        token_refused(res, token@, old(state)@.config.jwt_secret) ==> final(state)@ == old(state)@,
        !token_refused(res, token@, old(state)@.config.jwt_secret) ==> exists|player: ClaimsModel|
            signed_claims(token@, old(state)@.config.jwt_secret) == Some(player) && (
                final(state)@,
                outcome(res),
            ) == #[trigger] relay_reported(old(state)@, player.sub, session_id@, req@),
{
    let player = match verify_token(token, state.config.jwt_secret.as_str()) {
        Ok(player) => player,
        Err(e) => {
            return Err(e);
        },
    };
    turn_ready_for(state, &player, session_id, req)
}

/// The relayed address of a player's opponent, where sessions are met in
/// `order`.
pub open spec fn peer_address(
    s: StateModel,
    player: Seq<char>,
    session_id: Seq<char>,
    order: Seq<Seq<char>>,
) -> Result<PeerRelayResponseModel, AppErrorModel> {
    let e = s.queue[session_id];
    match session_refusal(s, player, session_id) {
        Some(refusal) => Err(refusal),
        None => match e.match_info {
            Some(info) => Ok(
                PeerRelayResponseModel {
                    peer_relayed_addr: match first_partner(order, s.queue, player, info.room_id) {
                        Some(k) => s.queue[k].relayed_addr,
                        None => None,
                    },
                },
            ),
            None => Err(AppErrorModel::BadRequest("Not matched yet"@)),
        },
    }
}

/// The relayed address of a player's opponent, where sessions are met in
/// `order`.
pub fn peer_relay_for(
    state: &AppState,
    player: &Claims,
    session_id: &str,
    order: &Vec<String>,
) -> (res: Result<PeerRelayResponse, AppError>)
    ensures
        outcome(res) == peer_address(state@, player@.sub, session_id@, order.deep_view()),
{
    let e = match own_session(state, player.sub.as_str(), session_id) {
        Ok(e) => e,
        Err(refusal) => {
            return Err(refusal);
        },
    };
    match e.match_info {
        Some(info) => match find_partner(
            order,
            &state.queue,
            player.sub.as_str(),
            info.room_id.as_str(),
        ) {
            Some(peer) => Ok(PeerRelayResponse { peer_relayed_addr: peer.relayed_addr }),
            None => Ok(PeerRelayResponse { peer_relayed_addr: None }),
        },
        None => Err(AppError::bad_request("Not matched yet")),
    }
}

/// The relayed address of the caller's opponent.
pub fn peer_relay(state: &AppState, token: &str, session_id: &str) -> (res: Result<
    PeerRelayResponse,
    AppError,
>)
    ensures
        !token_refused(res, token@, state@.config.jwt_secret) ==> exists|
            player: ClaimsModel,
            order: Seq<Seq<char>>,
        |
            signed_claims(token@, state@.config.jwt_secret) == Some(player) && lists_keys(
                order,
                state@.queue,
            ) && outcome(res) == #[trigger] peer_address(
                state@,
                player.sub,
                session_id@,
                order,
            ),
{
    match verify_token(token, state.config.jwt_secret.as_str()) {
        Ok(player) => {
            let order = table::keys(&state.queue);
            peer_relay_for(state, &player, session_id, &order)
        },
        Err(e) => Err(e),
    }
}

} // verus!
