//! Requests to king-of-the-hill lobbies.

use std::collections::VecDeque;
use vstd::prelude::*;
use crate::auth::{signed_claims, token_refused, verify_token};
use crate::error::{outcome, AppError, AppErrorModel};
use crate::ids::{
    code_digit, code_digit_of, lemma_code_digit, lobby_code, new_lobby_code, new_uuid, uuid_text,
};
use crate::koh::{
    advance_lobby, advanced, check_pending, find_seat, in_line, leave_line, line_without,
    pending_checked, put_back, put_front, seat, to_back, to_front,
};
use crate::lobbies::{
    end_sessions, is_playing, left, lobby_shown, lobby_state_for, match_sessions, plays,
    promote_pending, promoted, remove_lobby_member, sessions_ended,
};
use crate::models::{
    Claims, ClaimsModel, CreateLobbyRequest, CreateLobbyRequestModel, CreateLobbyResponse,
    CreateLobbyResponseModel, JoinLobbyRequest, JoinLobbyRequestModel, KohLobby, KohLobbyModel,
    LobbyMember, LobbyMemberModel, LobbyRole, LobbyStateResponse, LobbyStateResponseModel,
    LobbyThumb, LobbyThumbModel,
};
use crate::names::{clean_lobby_name, sanitize_lobby_name};
use crate::sessions::{endpoint, is_endpoint};
use crate::state::{AppState, StateModel};
use crate::table::{self, first_in, lists_keys};
use crate::text::same_text;
use crate::time::Timestamp;

verus! {

/// The largest screenshot that is kept, in bytes.
pub const MAX_LOBBY_THUMB_BYTES: usize = 262_144;

/// How often a code is drawn at random before the free ones are searched for.
const CODE_DRAWS: u32 = 1000;

// Opening a lobby

/// A lobby that has just been opened. Its opener is first in line.
pub open spec fn new_lobby(
    player: ClaimsModel,
    req: CreateLobbyRequestModel,
    code: Seq<char>,
    now: Timestamp,
) -> KohLobbyModel {
    KohLobbyModel {
        id: code,
        name: clean_lobby_name(Some(req.name), player.username),
        ranked: req.ranked,
        private: req.private,
        format: req.format,
        host_id: player.sub,
        app_version: req.app_version,
        rom_hash: req.rom_hash,
        created_at: now,
        last_activity: now,
        members: seq![
            LobbyMemberModel {
                player_id: player.sub,
                username: player.username,
                stun_endpoint: req.stun_endpoint,
                role: LobbyRole::Queued,
                last_seen: now,
            },
        ],
        queue: seq![player.sub],
        pending: None,
        current: None,
    }
}

/// What a request to open a lobby under a code comes to.
pub open spec fn lobby_created(
    s: StateModel,
    player: ClaimsModel,
    req: CreateLobbyRequestModel,
    code: Seq<char>,
    now: Timestamp,
) -> (StateModel, Result<CreateLobbyResponseModel, AppErrorModel>) {
    if !endpoint(req.stun_endpoint) {
        (s, Err(AppErrorModel::BadRequest("Invalid stun_endpoint"@)))
    } else {
        (
            StateModel {
                koh_lobbies: s.koh_lobbies.insert(code, new_lobby(player, req, code, now)),
                ..s
            },
            Ok(CreateLobbyResponseModel { lobby_id: code }),
        )
    }
}

/// Opens a lobby under a code.
pub fn create_lobby_at(
    state: &mut AppState,
    player: &Claims,
    req: &CreateLobbyRequest,
    code: &str,
    now: Timestamp,
) -> (res: Result<CreateLobbyResponse, AppError>)
    ensures
        (final(state)@, outcome(res)) == lobby_created(old(state)@, player@, req@, code@, now),
{
    if !is_endpoint(req.stun_endpoint.as_str()) {
        return Err(AppError::bad_request("Invalid stun_endpoint"));
    }
    let mut members: Vec<LobbyMember> = Vec::new();
    members.push(
        LobbyMember {
            player_id: player.sub.clone(),
            username: player.username.clone(),
            stun_endpoint: req.stun_endpoint.clone(),
            role: LobbyRole::Queued,
            last_seen: now,
        },
    );
    let mut queue: VecDeque<String> = VecDeque::new();
    queue.push_back(player.sub.clone());
    let lobby = KohLobby {
        id: code.to_string(),
        name: sanitize_lobby_name(Some(req.name.as_str()), player.username.as_str()),
        ranked: req.ranked,
        private: req.private,
        format: req.format,
        host_id: player.sub.clone(),
        app_version: req.app_version.clone(),
        rom_hash: req.rom_hash.clone(),
        created_at: now,
        last_activity: now,
        members,
        queue,
        pending: None,
        current: None,
    };
    proof {
        let model = new_lobby(player@, req@, code@, now);
        assert(lobby@.members == model.members);
        assert(lobby@.queue == model.queue);
        assert(lobby@ == model);
    }
    table::insert(&mut state.koh_lobbies, code.to_string(), lobby);
    Ok(CreateLobbyResponse { lobby_id: code.to_string() })
}

/// Whether every code is that of a lobby.
pub open spec fn no_code_left(s: StateModel) -> bool {
    forall|c: Seq<char>| lobby_code(c) ==> #[trigger] s.koh_lobbies.contains_key(c)
}

/// The first code that begins with `start` and that no lobby has.
fn search_code(state: &AppState, start: &str, len: usize) -> (code: Option<String>)
    requires
        len == start@.len(),
        len <= 6,
        forall|i: int| 0 <= i < len ==> '0' <= #[trigger] start@[i] <= '9' || 'A' <= start@[i] <= 'F',
    ensures
        match code {
            Some(c) => lobby_code(c@) && !state@.koh_lobbies.contains_key(c@),
            None => forall|c: Seq<char>|
                lobby_code(c) && start@.is_prefix_of(c)
                    ==> #[trigger] state@.koh_lobbies.contains_key(c),
        },
    decreases 6 - len,
{
    if len == 6 {
        if table::contains_key(&state.koh_lobbies, start) {
            proof {
                assert forall|c: Seq<char>| lobby_code(c) && start@.is_prefix_of(c) implies
                    #[trigger] state@.koh_lobbies.contains_key(c) by {
                    assert(c =~= start@);
                }
            }
            return None;
        }
        return Some(start.to_string());
    }
    let mut value: u8 = 0;
    while value < 16
        invariant
            value <= 16,
            len == start@.len(),
            len < 6,
            forall|i: int|
                0 <= i < len ==> '0' <= #[trigger] start@[i] <= '9' || 'A' <= start@[i] <= 'F',
            forall|v: int, c: Seq<char>|
                0 <= v < value && lobby_code(c) && #[trigger] start@.push(
                    code_digit(v),
                ).is_prefix_of(c) ==> #[trigger] state@.koh_lobbies.contains_key(c),
        decreases 16 - value,
    {
        let mut longer = start.to_string();
        longer.push(code_digit_of(value));
        if let Some(code) = search_code(state, longer.as_str(), len + 1) {
            return Some(code);
        }
        value += 1;
    }
    proof {
        assert forall|c: Seq<char>| lobby_code(c) && start@.is_prefix_of(c) implies
            #[trigger] state@.koh_lobbies.contains_key(c) by {
            let v = lemma_code_digit(c[len as int]);
            assert(start@.push(code_digit(v)).is_prefix_of(c)) by {
                assert(start@.push(code_digit(v)) =~= c.take(len + 1));
            }
        }
    }
    None
}

/// A code that no lobby has, if there is one. Codes are drawn until one is free;
/// after a long run of codes that are taken, the free ones are searched for.
fn free_code(state: &AppState) -> (code: Option<String>)
    ensures
        match code {
            Some(c) => lobby_code(c@) && !state@.koh_lobbies.contains_key(c@),
            None => no_code_left(state@),
        },
{
    let mut draws: u32 = CODE_DRAWS;
    while draws > 0
        decreases draws,
    {
        let code = new_lobby_code();
        if !table::contains_key(&state.koh_lobbies, code.as_str()) {
            return Some(code);
        }
        draws -= 1;
    }
    proof {
        reveal_strlit("");
    }
    let code = search_code(state, "", 0);
    proof {
        if code is None {
            assert forall|c: Seq<char>| lobby_code(c) implies
                #[trigger] state@.koh_lobbies.contains_key(c) by {
                assert(""@.is_prefix_of(c));
            }
        }
    }
    code
}

/// Opens a lobby for the caller, under a code that no lobby has. It is refused
/// for want of a code only where every one is taken.
pub fn create_lobby(state: &mut AppState, token: &str, req: &CreateLobbyRequest) -> (res: Result<
    CreateLobbyResponse,
    AppError,
>)
    ensures
        token_refused(res, token@, old(state)@.config.jwt_secret) ==> final(state)@ == old(state)@,
        !token_refused(res, token@, old(state)@.config.jwt_secret) ==> signed_claims(
            token@,
            old(state)@.config.jwt_secret,
        ) is Some && if !endpoint(req@.stun_endpoint) {
            (final(state)@, outcome(res)) == (
                old(state)@,
                Err::<CreateLobbyResponseModel, AppErrorModel>(
                    AppErrorModel::BadRequest("Invalid stun_endpoint"@),
                ),
            )
        } else if no_code_left(old(state)@) {
            (final(state)@, outcome(res)) == (
                old(state)@,
                Err::<CreateLobbyResponseModel, AppErrorModel>(
                    AppErrorModel::Internal("every lobby code is taken"@),
                ),
            )
        } else {
            exists|player: ClaimsModel, code: Seq<char>, now: Timestamp|
                signed_claims(token@, old(state)@.config.jwt_secret) == Some(player) && lobby_code(
                    code,
                ) && !old(state)@.koh_lobbies.contains_key(code) && now.nanos >= 0 && (
                    final(state)@,
                    outcome(res),
                ) == #[trigger] lobby_created(old(state)@, player, req@, code, now)
        },
{
    let player = match verify_token(token, state.config.jwt_secret.as_str()) {
        Ok(player) => player,
        Err(e) => {
            return Err(e);
        },
    };
    if !is_endpoint(req.stun_endpoint.as_str()) {
        return Err(AppError::bad_request("Invalid stun_endpoint"));
    }
    let Some(code) = free_code(state) else {
        return Err(AppError::Internal("every lobby code is taken".to_string()));
    };
    let now = Timestamp::now();
    create_lobby_at(state, &player, req, code.as_str(), now)
}

// Joining

/// The members once a player has joined, or joined anew.
pub open spec fn members_with(
    members: Seq<LobbyMemberModel>,
    player: ClaimsModel,
    stun_endpoint: Seq<char>,
    role: LobbyRole,
    now: Timestamp,
) -> Seq<LobbyMemberModel> {
    match seat(members, player.sub) {
        Some(i) => members.update(
            i,
            LobbyMemberModel { stun_endpoint, role, last_seen: now, ..members[i] },
        ),
        None => members.push(
            LobbyMemberModel {
                player_id: player.sub,
                username: player.username,
                stun_endpoint,
                role,
                last_seen: now,
            },
        ),
    }
}

/// The line once a player has joined to play or to watch. Whoever plays at the
/// time does not stand in it.
pub open spec fn line_with(l: KohLobbyModel, player: Seq<char>, spectate: bool) -> Seq<Seq<char>> {
    if spectate {
        line_without(l.queue, player)
    } else if plays(l, player) || l.queue.contains(player) {
        l.queue
    } else {
        l.queue.push(player)
    }
}

/// A lobby that a player has joined.
pub open spec fn joined_lobby(
    l: KohLobbyModel,
    player: ClaimsModel,
    req: JoinLobbyRequestModel,
    now: Timestamp,
) -> KohLobbyModel {
    let role = if req.spectate {
        LobbyRole::Spectating
    } else {
        LobbyRole::Queued
    };
    advanced(
        KohLobbyModel {
            members: members_with(l.members, player, req.stun_endpoint, role, now),
            queue: line_with(l, player.sub, req.spectate),
            last_activity: now,
            ..l
        },
        now,
    )
}

/// The state with a lobby changed.
pub open spec fn with_lobby(s: StateModel, lobby_id: Seq<char>, l: KohLobbyModel) -> StateModel {
    StateModel { koh_lobbies: s.koh_lobbies.insert(lobby_id, l), ..s }
}

/// The refusal for want of a lobby.
pub open spec fn no_such_lobby() -> AppErrorModel {
    AppErrorModel::NotFound("Lobby not found or already closed"@)
}

/// What a request to join a lobby comes to.
pub open spec fn lobby_joined(
    s: StateModel,
    player: ClaimsModel,
    lobby_id: Seq<char>,
    req: JoinLobbyRequestModel,
    now: Timestamp,
) -> (StateModel, Result<LobbyStateResponseModel, AppErrorModel>) {
    let l = s.koh_lobbies[lobby_id];
    if !endpoint(req.stun_endpoint) {
        (s, Err(AppErrorModel::BadRequest("Invalid stun_endpoint"@)))
    } else if !s.koh_lobbies.contains_key(lobby_id) {
        (s, Err(no_such_lobby()))
    } else if l.app_version != req.app_version || l.rom_hash != req.rom_hash {
        (s, Err(AppErrorModel::BadRequest("Lobby requires matching app version and ROM hash"@)))
    } else {
        let joined = joined_lobby(l, player, req, now);
        (with_lobby(s, lobby_id, joined), Ok(lobby_shown(s, joined, player.sub, now)))
    }
}

/// Notes a player among the members.
fn note_member(
    members: &mut Vec<LobbyMember>,
    player: &Claims,
    stun_endpoint: &str,
    role: LobbyRole,
    now: Timestamp,
)
    ensures
        final(members).deep_view() == members_with(
            old(members).deep_view(),
            player@,
            stun_endpoint@,
            role,
            now,
        ),
{
    let ghost before = members.deep_view();
    match find_seat(members, player.sub.as_str()) {
        Some(i) => {
            let mut m = members[i].clone();
            m.stun_endpoint = stun_endpoint.to_string();
            m.role = role;
            m.last_seen = now;
            let ghost noted = m@;
            members.set(i, m);
            proof {
                assert(members.deep_view() == before.update(i as int, noted));
            }
        },
        None => {
            let m = LobbyMember {
                player_id: player.sub.clone(),
                username: player.username.clone(),
                stun_endpoint: stun_endpoint.to_string(),
                role,
                last_seen: now,
            };
            let ghost noted = m@;
            members.push(m);
            proof {
                assert(members.deep_view() == before.push(noted));
            }
        },
    }
}

/// Has a player join a lobby.
pub fn join_lobby_at(
    state: &mut AppState,
    player: &Claims,
    lobby_id: &str,
    req: &JoinLobbyRequest,
    now: Timestamp,
) -> (res: Result<LobbyStateResponse, AppError>)
    ensures
        (final(state)@, outcome(res)) == lobby_joined(old(state)@, player@, lobby_id@, req@, now),
{
    if !is_endpoint(req.stun_endpoint.as_str()) {
        return Err(AppError::bad_request("Invalid stun_endpoint"));
    }
    let Some(mut lobby) = table::get(&state.koh_lobbies, lobby_id) else {
        return Err(AppError::not_found("Lobby not found or already closed"));
    };
    if lobby.app_version != req.app_version || lobby.rom_hash != req.rom_hash {
        return Err(AppError::bad_request("Lobby requires matching app version and ROM hash"));
    }
    let role = if req.spectate {
        LobbyRole::Spectating
    } else {
        LobbyRole::Queued
    };
    let ghost before = lobby@;
    note_member(&mut lobby.members, player, req.stun_endpoint.as_str(), role, now);
    if req.spectate {
        let mut line: VecDeque<String> = VecDeque::new();
        std::mem::swap(&mut line, &mut lobby.queue);
        lobby.queue = leave_line(line, player.sub.as_str());
    } else if !is_playing(&lobby, player.sub.as_str()) && !in_line(
        &lobby.queue,
        player.sub.as_str(),
    ) {
        lobby.queue.push_back(player.sub.clone());
        proof {
            assert(lobby@.queue == before.queue.push(player@.sub));
        }
    }
    lobby.last_activity = now;
    proof {
        assert(lobby@.queue == line_with(before, player@.sub, req@.spectate));
    }
    advance_lobby(&mut lobby, now);
    let shown = lobby_state_for(state, &lobby, player.sub.as_str(), now);
    table::insert(&mut state.koh_lobbies, lobby_id.to_string(), lobby);
    Ok(shown)
}

/// Has the caller join a lobby, to play or to watch.
pub fn join_lobby(state: &mut AppState, token: &str, lobby_id: &str, req: &JoinLobbyRequest) -> (res:
    Result<LobbyStateResponse, AppError>)
    ensures
        token_refused(res, token@, old(state)@.config.jwt_secret) ==> final(state)@ == old(state)@,
        !token_refused(res, token@, old(state)@.config.jwt_secret) ==> exists|
            player: ClaimsModel,
            now: Timestamp,
        |
            signed_claims(token@, old(state)@.config.jwt_secret) == Some(player) && now.nanos >= 0
                && (final(state)@, outcome(res)) == #[trigger] lobby_joined(
                old(state)@,
                player,
                lobby_id@,
                req@,
                now,
            ),
{
    let player = match verify_token(token, state.config.jwt_secret.as_str()) {
        Ok(player) => player,
        Err(e) => {
            return Err(e);
        },
    };
    let now = Timestamp::now();
    join_lobby_at(state, &player, lobby_id, req, now)
}

// Polling

/// The lobby once a member has been seen.
pub open spec fn seen(l: KohLobbyModel, player: Seq<char>, now: Timestamp) -> KohLobbyModel {
    match seat(l.members, player) {
        Some(i) => KohLobbyModel {
            members: l.members.update(i, LobbyMemberModel { last_seen: now, ..l.members[i] }),
            ..l
        },
        None => l,
    }
}

/// What a request to see a lobby comes to.
pub open spec fn lobby_seen(
    s: StateModel,
    player: Seq<char>,
    lobby_id: Seq<char>,
    now: Timestamp,
) -> (StateModel, Result<LobbyStateResponseModel, AppErrorModel>) {
    if !s.koh_lobbies.contains_key(lobby_id) {
        (s, Err(no_such_lobby()))
    } else {
        let l = advanced(pending_checked(seen(s.koh_lobbies[lobby_id], player, now), now), now);
        (with_lobby(s, lobby_id, l), Ok(lobby_shown(s, l, player, now)))
    }
}

/// Notes that a member has been seen.
fn note_seen(lobby: &mut KohLobby, player: &str, now: Timestamp)
    ensures
        final(lobby)@ == seen(old(lobby)@, player@, now),
{
    if let Some(i) = find_seat(&lobby.members, player) {
        let mut m = lobby.members[i].clone();
        m.last_seen = now;
        let ghost before = lobby.members.deep_view();
        let ghost noted = m@;
        lobby.members.set(i, m);
        proof {
            assert(lobby.members.deep_view() == before.update(i as int, noted));
        }
    }
}

/// Shows a player a lobby.
pub fn get_lobby_at(state: &mut AppState, player: &Claims, lobby_id: &str, now: Timestamp) -> (res:
    Result<LobbyStateResponse, AppError>)
    ensures
        (final(state)@, outcome(res)) == lobby_seen(old(state)@, player@.sub, lobby_id@, now),
{
    let Some(mut lobby) = table::get(&state.koh_lobbies, lobby_id) else {
        return Err(AppError::not_found("Lobby not found or already closed"));
    };
    note_seen(&mut lobby, player.sub.as_str(), now);
    check_pending(&mut lobby, now);
    advance_lobby(&mut lobby, now);
    let shown = lobby_state_for(state, &lobby, player.sub.as_str(), now);
    table::insert(&mut state.koh_lobbies, lobby_id.to_string(), lobby);
    Ok(shown)
}

/// Shows the caller a lobby.
pub fn get_lobby(state: &mut AppState, token: &str, lobby_id: &str) -> (res: Result<
    LobbyStateResponse,
    AppError,
>)
    ensures
        token_refused(res, token@, old(state)@.config.jwt_secret) ==> final(state)@ == old(state)@,
        !token_refused(res, token@, old(state)@.config.jwt_secret) ==> exists|
            player: ClaimsModel,
            now: Timestamp,
        |
            signed_claims(token@, old(state)@.config.jwt_secret) == Some(player) && now.nanos >= 0
                && (final(state)@, outcome(res)) == #[trigger] lobby_seen(
                old(state)@,
                player.sub,
                lobby_id@,
                now,
            ),
{
    let player = match verify_token(token, state.config.jwt_secret.as_str()) {
        Ok(player) => player,
        Err(e) => {
            return Err(e);
        },
    };
    let now = Timestamp::now();
    get_lobby_at(state, &player, lobby_id, now)
}

// Confirming

/// The state and the lobby once a player has said that they are ready. Only the
/// challenger's word counts.
pub open spec fn readied(
    s: StateModel,
    l: KohLobbyModel,
    player: Seq<char>,
    room_id: Seq<char>,
    host_session: Seq<char>,
    join_session: Seq<char>,
    now: Timestamp,
) -> (StateModel, KohLobbyModel) {
    let checked = pending_checked(seen(l, player, now), now);
    let (s2, l2) = if checked.pending is Some && checked.pending->0.challenger == player {
        promoted(s, checked, room_id, host_session, join_session, now)
    } else {
        (s, checked)
    };
    (s2, advanced(l2, now))
}

/// What a challenger's confirmation comes to.
pub open spec fn lobby_readied(
    s: StateModel,
    player: Seq<char>,
    lobby_id: Seq<char>,
    room_id: Seq<char>,
    host_session: Seq<char>,
    join_session: Seq<char>,
    now: Timestamp,
) -> (StateModel, Result<LobbyStateResponseModel, AppErrorModel>) {
    if !s.koh_lobbies.contains_key(lobby_id) {
        (s, Err(no_such_lobby()))
    } else {
        let (s2, l2) = readied(
            s,
            s.koh_lobbies[lobby_id],
            player,
            room_id,
            host_session,
            join_session,
            now,
        );
        (with_lobby(s2, lobby_id, l2), Ok(lobby_shown(s2, l2, player, now)))
    }
}

/// Takes a player's word that they are ready.
pub fn ready_lobby_at(
    state: &mut AppState,
    player: &Claims,
    lobby_id: &str,
    room_id: &str,
    host_session: &str,
    join_session: &str,
    now: Timestamp,
) -> (res: Result<LobbyStateResponse, AppError>)
    ensures
        (final(state)@, outcome(res)) == lobby_readied(
            old(state)@,
            player@.sub,
            lobby_id@,
            room_id@,
            host_session@,
            join_session@,
            now,
        ),
{
    let Some(mut lobby) = table::get(&state.koh_lobbies, lobby_id) else {
        return Err(AppError::not_found("Lobby not found or already closed"));
    };
    note_seen(&mut lobby, player.sub.as_str(), now);
    check_pending(&mut lobby, now);
    let is_challenger = match &lobby.pending {
        Some(p) => same_text(p.challenger.as_str(), player.sub.as_str()),
        None => false,
    };
    if is_challenger {
        promote_pending(state, &mut lobby, room_id, host_session, join_session, now);
    }
    advance_lobby(&mut lobby, now);
    let shown = lobby_state_for(state, &lobby, player.sub.as_str(), now);
    table::insert(&mut state.koh_lobbies, lobby_id.to_string(), lobby);
    Ok(shown)
}

/// Takes the caller's word that they are ready. When the challenger confirms in
/// time, the match starts; the champion is taken to be ready.
pub fn ready_lobby(state: &mut AppState, token: &str, lobby_id: &str) -> (res: Result<
    LobbyStateResponse,
    AppError,
>)
    ensures
        token_refused(res, token@, old(state)@.config.jwt_secret) ==> final(state)@ == old(state)@,
        !token_refused(res, token@, old(state)@.config.jwt_secret) ==> exists|
            player: ClaimsModel,
            room_id: Seq<char>,
            host_session: Seq<char>,
            join_session: Seq<char>,
            now: Timestamp,
        |
            signed_claims(token@, old(state)@.config.jwt_secret) == Some(player) && uuid_text(
                room_id,
            ) && uuid_text(host_session) && uuid_text(join_session) && now.nanos >= 0 && (
                final(state)@,
                outcome(res),
            ) == #[trigger] lobby_readied(
                old(state)@,
                player.sub,
                lobby_id@,
                room_id,
                host_session,
                join_session,
                now,
            ),
{
    let player = match verify_token(token, state.config.jwt_secret.as_str()) {
        Ok(player) => player,
        Err(e) => {
            return Err(e);
        },
    };
    let room_id = new_uuid();
    let host_session = new_uuid();
    let join_session = new_uuid();
    let now = Timestamp::now();
    ready_lobby_at(
        state,
        &player,
        lobby_id,
        room_id.as_str(),
        host_session.as_str(),
        join_session.as_str(),
        now,
    )
}

// Leaving

/// The state once a lobby has changed; a lobby without members is closed, and its
/// screenshot is dropped.
pub open spec fn kept_or_closed(
    s: StateModel,
    lobby_id: Seq<char>,
    l: KohLobbyModel,
) -> StateModel {
    if l.members.len() == 0 {
        StateModel {
            koh_lobbies: s.koh_lobbies.remove(lobby_id),
            lobby_thumbs: s.lobby_thumbs.remove(lobby_id),
            ..s
        }
    } else {
        with_lobby(s, lobby_id, l)
    }
}

/// The state once a player has left a lobby.
pub open spec fn lobby_left(
    s: StateModel,
    player: Seq<char>,
    lobby_id: Seq<char>,
    now: Timestamp,
) -> StateModel {
    if s.koh_lobbies.contains_key(lobby_id) {
        let l = s.koh_lobbies[lobby_id];
        kept_or_closed(
            StateModel { queue: s.queue.remove_keys(sessions_ended(l, player)), ..s },
            lobby_id,
            left(l, player, now),
        )
    } else {
        s
    }
}

/// Puts a changed lobby back, or closes it if nobody is left.
pub(crate) fn keep_or_close(state: &mut AppState, lobby_id: &str, lobby: KohLobby) -> (closed: bool)
    ensures
        final(state)@ == kept_or_closed(old(state)@, lobby_id@, lobby@),
        closed == (lobby@.members.len() == 0),
{
    if lobby.members.len() == 0 {
        let _ = table::remove(&mut state.koh_lobbies, lobby_id);
        let _ = table::remove(&mut state.lobby_thumbs, lobby_id);
        true
    } else {
        table::insert(&mut state.koh_lobbies, lobby_id.to_string(), lobby);
        false
    }
}

/// Takes a player out of a lobby.
pub fn leave_lobby_at(state: &mut AppState, player: &Claims, lobby_id: &str, now: Timestamp)
    ensures
        final(state)@ == lobby_left(old(state)@, player@.sub, lobby_id@, now),
{
    if let Some(mut lobby) = table::get(&state.koh_lobbies, lobby_id) {
        remove_lobby_member(&mut state.queue, &mut lobby, player.sub.as_str(), now);
        let _ = keep_or_close(state, lobby_id, lobby);
    }
}

/// Takes the caller out of a lobby.
pub fn leave_lobby(state: &mut AppState, token: &str, lobby_id: &str) -> (res: Result<(), AppError>)
    ensures
        token_refused(res, token@, old(state)@.config.jwt_secret) ==> final(state)@ == old(state)@,
        !token_refused(res, token@, old(state)@.config.jwt_secret) ==> res is Ok && exists|
            player: ClaimsModel,
            now: Timestamp,
        |
            signed_claims(token@, old(state)@.config.jwt_secret) == Some(player) && now.nanos >= 0
                && final(state)@ == #[trigger] lobby_left(
                old(state)@,
                player.sub,
                lobby_id@,
                now,
            ),
{
    let player = match verify_token(token, state.config.jwt_secret.as_str()) {
        Ok(player) => player,
        Err(e) => {
            return Err(e);
        },
    };
    let now = Timestamp::now();
    leave_lobby_at(state, &player, lobby_id, now);
    Ok(())
}

// Results

/// Whether a lobby is playing in this room.
pub open spec fn playing_in(l: KohLobbyModel, room_id: Seq<char>) -> bool {
    l.current is Some && l.current->0.room_id == room_id
}

/// The lobby that plays in a room, where lobbies are met in `order`.
pub open spec fn lobby_in(
    order: Seq<Seq<char>>,
    lobbies: Map<Seq<char>, KohLobbyModel>,
    room_id: Seq<char>,
) -> Option<Seq<char>> {
    first_in(order, lobbies, |l: KohLobbyModel| playing_in(l, room_id))
}

/// A lobby whose match has been decided: the winner stays on the hill, the loser
/// goes to the back of the line, and the next two are called up.
pub open spec fn decided(
    l: KohLobbyModel,
    winner: Seq<char>,
    loser: Seq<char>,
    now: Timestamp,
) -> KohLobbyModel {
    let settled = to_back(to_front(KohLobbyModel { current: None, ..l }, winner), loser);
    advanced(KohLobbyModel { last_activity: now, ..settled }, now)
}

/// The state once the match in a room has been decided, where lobbies are met in
/// `order`.
pub open spec fn match_decided(
    s: StateModel,
    room_id: Seq<char>,
    winner: Seq<char>,
    loser: Seq<char>,
    now: Timestamp,
    order: Seq<Seq<char>>,
) -> StateModel {
    match lobby_in(order, s.koh_lobbies, room_id) {
        Some(id) => {
            let l = s.koh_lobbies[id];
            StateModel {
                queue: s.queue.remove_keys(match_sessions(l)),
                koh_lobbies: s.koh_lobbies.insert(id, decided(l, winner, loser, now)),
                ..s
            }
        },
        None => s,
    }
}

/// Whether a lobby is playing in this room.
fn is_playing_in(lobby: &KohLobby, room_id: &str) -> (res: bool)
    ensures
        res == playing_in(lobby@, room_id@),
{
    match &lobby.current {
        Some(c) => same_text(c.room_id.as_str(), room_id),
        None => false,
    }
}

/// The lobby that plays in a room: the first one in a given order.
fn find_lobby(order: &Vec<String>, state: &AppState, room_id: &str) -> (found: Option<
    (String, KohLobby),
>)
    ensures
        match found {
            Some((id, l)) => lobby_in(order.deep_view(), state@.koh_lobbies, room_id@) == Some(id@)
                && state@.koh_lobbies.contains_key(id@) && l@ == state@.koh_lobbies[id@]
                && playing_in(l@, room_id@),
            None => lobby_in(order.deep_view(), state@.koh_lobbies, room_id@) is None,
        },
{
    let ghost rows = state@.koh_lobbies;
    let mut i: usize = 0;
    assert(order.deep_view().skip(0) == order.deep_view());
    while i < order.len()
        invariant
            i <= order.len(),
            rows == state@.koh_lobbies,
            lobby_in(order.deep_view(), rows, room_id@) == lobby_in(
                order.deep_view().skip(i as int),
                rows,
                room_id@,
            ),
        decreases order.len() - i,
    {
        let id = order[i].as_str();
        proof {
            assert(order.deep_view().skip(i as int)[0] == id@);
            assert(order.deep_view().skip(i as int).drop_first() == order.deep_view().skip(i + 1));
        }
        if let Some(lobby) = table::get(&state.koh_lobbies, id) {
            if is_playing_in(&lobby, room_id) {
                return Some((id.to_string(), lobby));
            }
        }
        i += 1;
    }
    None
}

/// Rotates the lobby whose match in a room has been decided, if it is a lobby's.
pub fn koh_on_result_at(
    state: &mut AppState,
    room_id: &str,
    winner_id: &str,
    loser_id: &str,
    now: Timestamp,
    order: &Vec<String>,
)
    ensures
        final(state)@ == match_decided(
            old(state)@,
            room_id@,
            winner_id@,
            loser_id@,
            now,
            order.deep_view(),
        ),
{
    if let Some((id, mut lobby)) = find_lobby(order, state, room_id) {
        if let Some(c) = lobby.current.take() {
            end_sessions(&mut state.queue, &c);
        }
        put_front(&mut lobby, winner_id);
        put_back(&mut lobby, loser_id);
        lobby.last_activity = now;
        advance_lobby(&mut lobby, now);
        table::insert(&mut state.koh_lobbies, id, lobby);
    }
}

/// Rotates the lobby whose match in a room has been decided, if it is a lobby's:
/// the winner returns to the front of the line, the loser to the back.
pub fn koh_on_result(state: &mut AppState, room_id: &str, winner_id: &str, loser_id: &str)
    ensures
        exists|now: Timestamp, order: Seq<Seq<char>>|
            now.nanos >= 0 && lists_keys(order, old(state)@.koh_lobbies) && final(state)@
                == #[trigger] match_decided(
                old(state)@,
                room_id@,
                winner_id@,
                loser_id@,
                now,
                order,
            ),
{
    let now = Timestamp::now();
    let order = table::keys(&state.koh_lobbies);
    koh_on_result_at(state, room_id, winner_id, loser_id, now, &order);
}

/// Whether a room is that of an unranked lobby's match, which does not count.
pub open spec fn unranked_room(s: StateModel, room_id: Seq<char>) -> bool {
    exists|id: Seq<char>|
        #[trigger] s.koh_lobbies.contains_key(id) && !s.koh_lobbies[id].ranked && playing_in(
            s.koh_lobbies[id],
            room_id,
        )
}

/// Whether a room is that of an unranked lobby's match, which does not count.
pub fn is_unranked_lobby_room(state: &AppState, room_id: &str) -> (res: bool)
    ensures
        res == unranked_room(state@, room_id@),
{
    let keys = table::keys(&state.koh_lobbies);
    let ghost rows = state@.koh_lobbies;
    let mut i: usize = 0;
    while i < keys.len()
        invariant
            i <= keys.len(),
            rows == state@.koh_lobbies,
            lists_keys(keys.deep_view(), rows),
            forall|j: int|
                0 <= j < i ==> !(!rows[#[trigger] keys.deep_view()[j]].ranked && playing_in(
                    rows[keys.deep_view()[j]],
                    room_id@,
                )),
        decreases keys.len() - i,
    {
        proof {
            assert(keys.deep_view().contains(keys.deep_view()[i as int]));
        }
        if let Some(lobby) = table::get(&state.koh_lobbies, keys[i].as_str()) {
            if !lobby.ranked && is_playing_in(&lobby, room_id) {
                proof {
                    assert(rows.contains_key(keys.deep_view()[i as int]));
                }
                return true;
            }
        }
        i += 1;
    }
    proof {
        assert forall|id: Seq<char>| #[trigger] rows.contains_key(id) implies !(!rows[id].ranked
            && playing_in(rows[id], room_id@)) by {
            assert(keys.deep_view().contains(id));
        }
    }
    false
}

// Screenshots

/// What a push of a screenshot comes to.
pub open spec fn thumb_put(
    s: StateModel,
    player: Seq<char>,
    lobby_id: Seq<char>,
    bytes: Seq<u8>,
    now: Timestamp,
) -> (StateModel, Result<(), AppErrorModel>) {
    if bytes.len() > MAX_LOBBY_THUMB_BYTES {
        (s, Err(AppErrorModel::BadRequest("Thumbnail too large"@)))
    } else if !(s.koh_lobbies.contains_key(lobby_id) && plays(s.koh_lobbies[lobby_id], player)) {
        (s, Err(AppErrorModel::Unauthorized("Only active players can push a lobby thumbnail"@)))
    } else {
        (
            StateModel {
                lobby_thumbs: s.lobby_thumbs.insert(
                    lobby_id,
                    LobbyThumbModel { bytes, pushed_at: now },
                ),
                ..s
            },
            Ok(()),
        )
    }
}

/// Keeps a player's screenshot of a lobby's match.
pub fn put_lobby_thumb_at(
    state: &mut AppState,
    player: &Claims,
    lobby_id: &str,
    bytes: Vec<u8>,
    now: Timestamp,
) -> (res: Result<(), AppError>)
    ensures
        (final(state)@, outcome(res)) == thumb_put(
            old(state)@,
            player@.sub,
            lobby_id@,
            bytes@,
            now,
        ),
{
    if bytes.len() > MAX_LOBBY_THUMB_BYTES {
        return Err(AppError::bad_request("Thumbnail too large"));
    }
    let is_player = match table::get(&state.koh_lobbies, lobby_id) {
        Some(lobby) => is_playing(&lobby, player.sub.as_str()),
        None => false,
    };
    if !is_player {
        return Err(AppError::unauthorized("Only active players can push a lobby thumbnail"));
    }
    table::insert(
        &mut state.lobby_thumbs,
        lobby_id.to_string(),
        LobbyThumb { bytes, pushed_at: now },
    );
    Ok(())
}

/// Keeps the caller's screenshot of a lobby's match. Only the two who play may
/// push one.
pub fn put_lobby_thumb(state: &mut AppState, token: &str, lobby_id: &str, bytes: Vec<u8>) -> (res:
    Result<(), AppError>)
    ensures
        token_refused(res, token@, old(state)@.config.jwt_secret) ==> final(state)@ == old(state)@,
        !token_refused(res, token@, old(state)@.config.jwt_secret) ==> exists|
            player: ClaimsModel,
            now: Timestamp,
        |
            signed_claims(token@, old(state)@.config.jwt_secret) == Some(player) && now.nanos >= 0
                && (final(state)@, outcome(res)) == #[trigger] thumb_put(
                old(state)@,
                player.sub,
                lobby_id@,
                bytes@,
                now,
            ),
{
    let player = match verify_token(token, state.config.jwt_secret.as_str()) {
        Ok(player) => player,
        Err(e) => {
            return Err(e);
        },
    };
    let now = Timestamp::now();
    let ghost pushed = bytes@;
    let res = put_lobby_thumb_at(state, &player, lobby_id, bytes, now);
    proof {
        assert((state@, outcome(res)) == thumb_put(
            old(state)@,
            player@.sub,
            lobby_id@,
            pushed,
            now,
        ));
    }
    res
}

/// The latest screenshot of a lobby's match, if there is one.
pub fn get_lobby_thumb(state: &AppState, lobby_id: &str) -> (bytes: Option<Vec<u8>>)
    ensures
        match bytes {
            Some(b) => state@.lobby_thumbs.contains_key(lobby_id@) && b@
                == state@.lobby_thumbs[lobby_id@].bytes,
            None => !state@.lobby_thumbs.contains_key(lobby_id@),
        },
{
    match table::get(&state.lobby_thumbs, lobby_id) {
        Some(thumb) => Some(thumb.bytes),
        None => None,
    }
}

} // verus!
