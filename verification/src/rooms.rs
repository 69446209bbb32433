//! Spar rooms, and the listings of rooms and lobbies.

use vstd::prelude::*;
use crate::auth::{signed_claims, token_refused, verify_token};
use crate::discord::{Notice, NoticeModel};
use crate::error::{outcome, AppError, AppErrorModel};
use crate::ids::{new_uuid, uuid_text};
use crate::koh::{find_seat, seat};
use crate::models::{
    Claims, ClaimsModel, CreateRoomRequest, CreateRoomRequestModel, CreateRoomResponse,
    CreateRoomResponseModel, JoinRoomRequest, JoinRoomRequestModel, JoinRoomResponse,
    JoinRoomResponseModel, KohLobby, KohLobbyModel, LobbyListResponse, LobbyRoomSummary,
    LobbyRoomSummaryModel, PlayerRole, QueueEntryModel, SparRoom, SparRoomModel,
};
use crate::names::{clean_lobby_name, sanitize_lobby_name};
use crate::queue::{add_session, pair, paired, session_added};
use crate::ranking::{sort_rows, sorted_rows, views, Rank, Ranked};
use crate::sessions::{endpoint, is_endpoint, meet, meeting, open_session, opened, waiting};
use crate::state::{AppState, StateModel};
use crate::table::{self, lists_keys};
use crate::time::Timestamp;

verus! {

// Opening a room

/// A room that has just been opened.
pub open spec fn new_room(
    player: ClaimsModel,
    req: CreateRoomRequestModel,
    room_id: Seq<char>,
    now: Timestamp,
) -> SparRoomModel {
    SparRoomModel {
        room_id,
        creator_discord_id: player.sub,
        creator_username: player.username,
        created_at: now,
        name: clean_lobby_name(req.name, player.username),
        format: req.format,
        private: req.private,
        app_version: req.app_version,
        rom_hash: req.rom_hash,
    }
}

/// What a request to open a room comes to. The creator holds a session that waits
/// for whoever joins.
pub open spec fn room_created(
    s: StateModel,
    player: ClaimsModel,
    req: CreateRoomRequestModel,
    room_id: Seq<char>,
    session_id: Seq<char>,
    now: Timestamp,
) -> (StateModel, Result<CreateRoomResponseModel, AppErrorModel>) {
    if !endpoint(req.stun_endpoint) {
        (s, Err(AppErrorModel::BadRequest("Invalid stun_endpoint"@)))
    } else {
        (
            session_added(
                StateModel {
                    spar_rooms: s.spar_rooms.insert(room_id, new_room(player, req, room_id, now)),
                    ..s
                },
                opened(
                    session_id,
                    player.sub,
                    player.username,
                    req.stun_endpoint,
                    req.app_version,
                    req.rom_hash,
                    now,
                    None,
                ),
            ),
            Ok(CreateRoomResponseModel { room_id, creator_session_id: session_id }),
        )
    }
}

/// Opens a room.
pub fn create_room_at(
    state: &mut AppState,
    player: &Claims,
    req: &CreateRoomRequest,
    room_id: &str,
    session_id: &str,
    now: Timestamp,
) -> (res: Result<CreateRoomResponse, AppError>)
    ensures
        (final(state)@, outcome(res)) == room_created(
            old(state)@,
            player@,
            req@,
            room_id@,
            session_id@,
            now,
        ),
{
    if !is_endpoint(req.stun_endpoint.as_str()) {
        return Err(AppError::bad_request("Invalid stun_endpoint"));
    }
    let name = match &req.name {
        Some(name) => sanitize_lobby_name(Some(name.as_str()), player.username.as_str()),
        None => sanitize_lobby_name(None, player.username.as_str()),
    };
    let room = SparRoom {
        room_id: room_id.to_string(),
        creator_discord_id: player.sub.clone(),
        creator_username: player.username.clone(),
        created_at: now,
        name,
        format: req.format,
        private: req.private,
        app_version: req.app_version.clone(),
        rom_hash: req.rom_hash.clone(),
    };
    table::insert(&mut state.spar_rooms, room_id.to_string(), room);
    let e = open_session(
        session_id,
        player.sub.as_str(),
        player.username.as_str(),
        req.stun_endpoint.as_str(),
        req.app_version.as_str(),
        req.rom_hash.as_str(),
        now,
        None,
    );
    add_session(state, e);
    Ok(
        CreateRoomResponse {
            room_id: room_id.to_string(),
            creator_session_id: session_id.to_string(),
        },
    )
}

/// Opens a room for the caller.
pub fn create_room(state: &mut AppState, token: &str, req: &CreateRoomRequest) -> (res: Result<
    CreateRoomResponse,
    AppError,
>)
    ensures
        token_refused(res, token@, old(state)@.config.jwt_secret) ==> final(state)@ == old(state)@,
        !token_refused(res, token@, old(state)@.config.jwt_secret) ==> exists|
            player: ClaimsModel,
            room_id: Seq<char>,
            session_id: Seq<char>,
            now: Timestamp,
        |
            signed_claims(token@, old(state)@.config.jwt_secret) == Some(player) && uuid_text(
                room_id,
            ) && uuid_text(session_id) && now.nanos >= 0 && (final(state)@, outcome(res))
                == #[trigger] room_created(
                old(state)@,
                player,
                req@,
                room_id,
                session_id,
                now,
            ),
{
    let player = match verify_token(token, state.config.jwt_secret.as_str()) {
        Ok(player) => player,
        Err(e) => {
            return Err(e);
        },
    };
    let room_id = new_uuid();
    let session_id = new_uuid();
    let now = Timestamp::now();
    create_room_at(state, &player, req, room_id.as_str(), session_id.as_str(), now)
}

// Joining a room

/// Whether the creator of a room can be met there: they wait, and still with the
/// version and the game image of the room.
pub open spec fn meets_in(e: QueueEntryModel, room: SparRoomModel) -> bool {
    waiting(e) && e.app_version == room.app_version && e.rom_hash == room.rom_hash
}

/// What a request to join a room comes to. A room is used up by whoever may join
/// it, even where the creator turns out to be gone, or to wait for others.
pub open spec fn room_joined(
    s: StateModel,
    player: ClaimsModel,
    room_id: Seq<char>,
    req: JoinRoomRequestModel,
    session_id: Seq<char>,
    match_room_id: Seq<char>,
    now: Timestamp,
) -> (StateModel, Result<(JoinRoomResponseModel, NoticeModel), AppErrorModel>) {
    let room = s.spar_rooms[room_id];
    let used = StateModel { spar_rooms: s.spar_rooms.remove(room_id), ..s };
    let host_id = s.player_sessions[room.creator_discord_id];
    if !endpoint(req.stun_endpoint) {
        (s, Err(AppErrorModel::BadRequest("Invalid stun_endpoint"@)))
    } else if !s.spar_rooms.contains_key(room_id) {
        (s, Err(AppErrorModel::NotFound("Room not found or already joined"@)))
    } else if room.creator_discord_id == player.sub {
        (s, Err(AppErrorModel::BadRequest("Cannot join your own room"@)))
    } else if room.app_version != req.app_version || room.rom_hash != req.rom_hash {
        (s, Err(AppErrorModel::BadRequest("Room requires matching app version and ROM hash"@)))
    } else if !s.player_sessions.contains_key(room.creator_discord_id) {
        (used, Err(AppErrorModel::NotFound("Room creator is no longer available"@)))
    } else if !s.queue.contains_key(host_id) {
        (used, Err(AppErrorModel::NotFound("Room creator session expired"@)))
    } else if !meets_in(s.queue[host_id], room) {
        (used, Err(AppErrorModel::NotFound("Room creator is no longer in queue"@)))
    } else {
        (
            paired(
                used,
                host_id,
                room.creator_username,
                player,
                req.stun_endpoint,
                req.app_version,
                req.rom_hash,
                session_id,
                match_room_id,
                now,
            ),
            Ok(
                (
                    JoinRoomResponseModel {
                        session_id,
                        match_info: meeting(
                            s.config,
                            PlayerRole::Join,
                            s.queue[host_id].stun_endpoint,
                            room.creator_username,
                            match_room_id,
                            now,
                        ),
                    },
                    NoticeModel::Matched { first: room.creator_username, second: player.username },
                ),
            ),
        )
    }
}

/// Has a player join a room.
pub fn join_room_at(
    state: &mut AppState,
    player: &Claims,
    room_id: &str,
    req: &JoinRoomRequest,
    session_id: &str,
    match_room_id: &str,
    now: Timestamp,
) -> (res: Result<(JoinRoomResponse, Notice), AppError>)
    ensures
        (final(state)@, outcome(res)) == room_joined(
            old(state)@,
            player@,
            room_id@,
            req@,
            session_id@,
            match_room_id@,
            now,
        ),
{
    if !is_endpoint(req.stun_endpoint.as_str()) {
        return Err(AppError::bad_request("Invalid stun_endpoint"));
    }
    let Some(room) = table::get(&state.spar_rooms, room_id) else {
        return Err(AppError::not_found("Room not found or already joined"));
    };
    if room.creator_discord_id == player.sub {
        return Err(AppError::bad_request("Cannot join your own room"));
    }
    if room.app_version != req.app_version || room.rom_hash != req.rom_hash {
        return Err(AppError::bad_request("Room requires matching app version and ROM hash"));
    }
    let _ = table::remove(&mut state.spar_rooms, room_id);
    let Some(host_id) = table::get(&state.player_sessions, room.creator_discord_id.as_str()) else {
        return Err(AppError::not_found("Room creator is no longer available"));
    };
    let Some(host) = table::get(&state.queue, host_id.as_str()) else {
        return Err(AppError::not_found("Room creator session expired"));
    };
    if host.cancelled || host.match_info.is_some() || host.app_version != room.app_version
        || host.rom_hash != room.rom_hash {
        return Err(AppError::not_found("Room creator is no longer in queue"));
    }
    let match_info = meet(
        &state.config,
        PlayerRole::Join,
        host.stun_endpoint.as_str(),
        room.creator_username.as_str(),
        match_room_id,
        now,
    );
    pair(
        state,
        host_id.as_str(),
        room.creator_username.as_str(),
        player,
        req.stun_endpoint.as_str(),
        req.app_version.as_str(),
        req.rom_hash.as_str(),
        session_id,
        match_room_id,
        now,
    );
    Ok(
        (
            JoinRoomResponse { session_id: session_id.to_string(), match_info },
            Notice::Matched { first: room.creator_username, second: player.username.clone() },
        ),
    )
}

/// Has the caller join a room.
pub fn join_room(state: &mut AppState, token: &str, room_id: &str, req: &JoinRoomRequest) -> (res:
    Result<(JoinRoomResponse, Notice), AppError>)
    ensures
        token_refused(res, token@, old(state)@.config.jwt_secret) ==> final(state)@ == old(state)@,
        !token_refused(res, token@, old(state)@.config.jwt_secret) ==> exists|
            player: ClaimsModel,
            session_id: Seq<char>,
            match_room_id: Seq<char>,
            now: Timestamp,
        |
            signed_claims(token@, old(state)@.config.jwt_secret) == Some(player) && uuid_text(
                session_id,
            ) && uuid_text(match_room_id) && now.nanos >= 0 && (final(state)@, outcome(res))
                == #[trigger] room_joined(
                old(state)@,
                player,
                room_id@,
                req@,
                session_id,
                match_room_id,
                now,
            ),
{
    let player = match verify_token(token, state.config.jwt_secret.as_str()) {
        Ok(player) => player,
        Err(e) => {
            return Err(e);
        },
    };
    let session_id = new_uuid();
    let match_room_id = new_uuid();
    let now = Timestamp::now();
    join_room_at(
        state,
        &player,
        room_id,
        req,
        session_id.as_str(),
        match_room_id.as_str(),
        now,
    )
}

// Listings

impl Ranked for LobbyRoomSummary {
    open spec fn rank(row: LobbyRoomSummaryModel) -> Rank {
        (0, row.name, row.id)
    }

    fn key(&self) -> (key: (i128, &str, &str)) {
        (0, self.name.as_str(), self.id.as_str())
    }
}

/// A room as a listing shows it.
pub open spec fn room_summary(room: SparRoomModel) -> LobbyRoomSummaryModel {
    LobbyRoomSummaryModel {
        id: room.room_id,
        name: room.name,
        host_username: room.creator_username,
        format: room.format,
        players: 1,
        private: room.private,
        status: "open"@,
    }
}

/// A room as a listing shows it.
pub fn lobby_room_summary(room: &SparRoom) -> (summary: LobbyRoomSummary)
    ensures
        summary@ == room_summary(room@),
{
    LobbyRoomSummary {
        id: room.room_id.clone(),
        name: room.name.clone(),
        host_username: room.creator_username.clone(),
        format: room.format,
        players: 1,
        private: room.private,
        status: "open".to_string(),
    }
}

/// The name of a lobby's host: that of whoever opened it, or else of the member
/// who has been there longest.
pub open spec fn lobby_host(l: KohLobbyModel) -> Seq<char> {
    match seat(l.members, l.host_id) {
        Some(i) => l.members[i].username,
        None => if l.members.len() > 0 {
            l.members[0].username
        } else {
            "Host"@
        },
    }
}

/// A lobby as a listing shows it.
pub open spec fn lobby_summary(l: KohLobbyModel) -> LobbyRoomSummaryModel {
    LobbyRoomSummaryModel {
        id: l.id,
        name: l.name,
        host_username: lobby_host(l),
        format: l.format,
        players: if l.members.len() > 255 {
            255
        } else {
            l.members.len() as u8
        },
        private: false,
        status: if l.current is Some {
            "in match"@
        } else {
            "open"@
        },
    }
}

/// A lobby as a listing shows it.
pub fn summarize_lobby(l: &KohLobby) -> (summary: LobbyRoomSummary)
    ensures
        summary@ == lobby_summary(l@),
{
    let host_username = match find_seat(&l.members, l.host_id.as_str()) {
        Some(i) => l.members[i].username.clone(),
        None => if l.members.len() > 0 {
            l.members[0].username.clone()
        } else {
            "Host".to_string()
        },
    };
    LobbyRoomSummary {
        id: l.id.clone(),
        name: l.name.clone(),
        host_username,
        format: l.format,
        players: if l.members.len() > 255 {
            255
        } else {
            l.members.len() as u8
        },
        private: false,
        status: if l.current.is_some() {
            "in match".to_string()
        } else {
            "open".to_string()
        },
    }
}

/// The summaries of the public rooms, in the order of their keys.
pub open spec fn public_rooms(order: Seq<Seq<char>>, s: StateModel) -> Seq<LobbyRoomSummaryModel> {
    order.filter(|k: Seq<char>| !s.spar_rooms[k].private).map_values(
        |k: Seq<char>| room_summary(s.spar_rooms[k]),
    )
}

/// The summaries of the public lobbies, in the order of their keys.
pub open spec fn public_lobbies(order: Seq<Seq<char>>, s: StateModel) -> Seq<
    LobbyRoomSummaryModel,
> {
    order.filter(|k: Seq<char>| !s.koh_lobbies[k].private).map_values(
        |k: Seq<char>| lobby_summary(s.koh_lobbies[k]),
    )
}

/// Filtering and mapping one more key.
pub proof fn lemma_listing_step<M>(
    order: Seq<Seq<char>>,
    i: int,
    p: spec_fn(Seq<char>) -> bool,
    f: spec_fn(Seq<char>) -> M,
)
    requires
        0 <= i < order.len(),
    ensures
        order.take(i + 1).filter(p).map_values(f) == if p(order[i]) {
            order.take(i).filter(p).map_values(f).push(f(order[i]))
        } else {
            order.take(i).filter(p).map_values(f)
        },
{
    reveal(Seq::filter);
    assert(order.take(i + 1).drop_last() == order.take(i));
    assert(order.take(i + 1).last() == order[i]);
    assert(order.take(i).filter(p).push(order[i]).map_values(f) == order.take(i).filter(
        p,
    ).map_values(f).push(f(order[i])));
}

/// Lists the public rooms, by name.
pub fn list_lobbies(state: &AppState) -> (res: LobbyListResponse)
    ensures
        exists|order: Seq<Seq<char>>|
            lists_keys(order, state@.spar_rooms) && sorted_rows::<LobbyRoomSummary>(
                #[trigger] public_rooms(order, state@),
                res@.lobbies,
            ),
{
    let keys = table::keys(&state.spar_rooms);
    let ghost order = keys.deep_view();
    let ghost p = |k: Seq<char>| !state@.spar_rooms[k].private;
    let ghost f = |k: Seq<char>| room_summary(state@.spar_rooms[k]);
    let mut rows: Vec<LobbyRoomSummary> = Vec::new();
    let mut i: usize = 0;
    assert(views(rows@) == order.take(0).filter(p).map_values(f));
    while i < keys.len()
        invariant
            i <= keys.len(),
            order == keys.deep_view(),
            lists_keys(order, state@.spar_rooms),
            p == (|k: Seq<char>| !state@.spar_rooms[k].private),
            f == (|k: Seq<char>| room_summary(state@.spar_rooms[k])),
            views(rows@) == order.take(i as int).filter(p).map_values(f),
        decreases keys.len() - i,
    {
        let ghost before = views(rows@);
        proof {
            assert(order.contains(order[i as int]));
            lemma_listing_step(order, i as int, p, f);
        }
        if let Some(room) = table::get(&state.spar_rooms, keys[i].as_str()) {
            if !room.private {
                rows.push(lobby_room_summary(&room));
                proof {
                    assert(views(rows@) == before.push(f(order[i as int])));
                }
            }
        }
        i += 1;
    }
    proof {
        assert(order.take(order.len() as int) == order);
    }
    let ghost listed = views(rows@);
    let lobbies = sort_rows(rows);
    let res = LobbyListResponse { lobbies };
    proof {
        assert(listed == public_rooms(order, state@));
        assert(res@.lobbies == views(lobbies@));
    }
    res
}

/// Lists the public lobbies, by name.
pub fn list_koh_lobbies(state: &AppState) -> (res: LobbyListResponse)
    ensures
        exists|order: Seq<Seq<char>>|
            lists_keys(order, state@.koh_lobbies) && sorted_rows::<LobbyRoomSummary>(
                #[trigger] public_lobbies(order, state@),
                res@.lobbies,
            ),
{
    let keys = table::keys(&state.koh_lobbies);
    let ghost order = keys.deep_view();
    let ghost p = |k: Seq<char>| !state@.koh_lobbies[k].private;
    let ghost f = |k: Seq<char>| lobby_summary(state@.koh_lobbies[k]);
    let mut rows: Vec<LobbyRoomSummary> = Vec::new();
    let mut i: usize = 0;
    assert(views(rows@) == order.take(0).filter(p).map_values(f));
    while i < keys.len()
        invariant
            i <= keys.len(),
            order == keys.deep_view(),
            lists_keys(order, state@.koh_lobbies),
            p == (|k: Seq<char>| !state@.koh_lobbies[k].private),
            f == (|k: Seq<char>| lobby_summary(state@.koh_lobbies[k])),
            views(rows@) == order.take(i as int).filter(p).map_values(f),
        decreases keys.len() - i,
    {
        let ghost before = views(rows@);
        proof {
            assert(order.contains(order[i as int]));
            lemma_listing_step(order, i as int, p, f);
        }
        if let Some(lobby) = table::get(&state.koh_lobbies, keys[i].as_str()) {
            if !lobby.private {
                rows.push(summarize_lobby(&lobby));
                proof {
                    assert(views(rows@) == before.push(f(order[i as int])));
                }
            }
        }
        i += 1;
    }
    proof {
        assert(order.take(order.len() as int) == order);
    }
    let ghost listed = views(rows@);
    let lobbies = sort_rows(rows);
    let res = LobbyListResponse { lobbies };
    proof {
        assert(listed == public_lobbies(order, state@));
        assert(res@.lobbies == views(lobbies@));
    }
    res
}

} // verus!
