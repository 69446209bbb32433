//! What always holds of the tables: every record stands under its own id, every
//! player's current session is their own, and a room joins exactly a host and
//! another player who joins. Every request keeps it so, as long as the ids that
//! are drawn for it are new.

use vstd::prelude::*;
use crate::challenges::{challenge_accepted, challenge_declined, challenge_sent, new_challenge};
use crate::config::ConfigModel;
use crate::koh::{lemma_seat, pending_checked};
use crate::lobby_laws::{
    being_seen_keeps_order, deciding_keeps_order, joining_keeps_order, leaving_keeps_order,
    lemma_advanced, lobby_in_order, new_lobbies_are_in_order, ready_checks_keep_order,
    readying_keeps_order, sweeping_keeps_order, two_members,
};
use crate::lobby_requests::{
    decided, lobby_created, lobby_in, lobby_joined, lobby_left, lobby_readied, lobby_seen,
    match_decided, playing_in, readied, seen, thumb_put,
};
use crate::models::{
    AcceptChallengeRequestModel, ActiveMatchModel, ChallengeRequestModel, ClaimsModel,
    CreateLobbyRequestModel, CreateRoomRequestModel, JoinLobbyRequestModel, JoinRoomRequestModel,
    KohLobbyModel, LfgRequestModel, LobbyChatRequestModel, MatchResultRequestModel, PlayerRole,
    QueueEntryModel, SpectatorPushRequestModel, TurnReadyRequestModel,
};
use crate::presence::{chatted, touched};
use crate::queue::{lfg, paired, queue_cancelled, relay_reported, requeued, session_added};
use crate::results::{confirmed, reported, result_id, seated, settled, verdict};
use crate::rooms::{new_room, room_created, room_joined};
use crate::sessions::{eligible, first_opponent, first_partner, in_room, opened, partner, Sessions};
use crate::spectators::frame_pushed;
use crate::state::{fresh_state, StateModel};
use crate::sweeper::{
    all_left, challenges_swept, lobbies_swept, idle_players, queue_swept, rows_swept, swept,
    unstuck,
};
use crate::table::{first_in, lists_keys};
use crate::time::Timestamp;

verus! {

// The order

/// Every session stands under its own id.
pub open spec fn sessions_keyed(queue: Sessions) -> bool {
    forall|k: Seq<char>| #[trigger] queue.contains_key(k) ==> queue[k].session_id == k
}

/// Two sessions in one room are those of two players, one of whom hosts.
pub open spec fn rooms_paired(queue: Sessions) -> bool {
    forall|j: Seq<char>, k: Seq<char>|
        #[trigger] queue.contains_key(j) && #[trigger] queue.contains_key(k) && j != k
            && queue[j].match_info is Some && in_room(queue[k], queue[j].match_info->0.room_id)
            ==> queue[j].discord_id != queue[k].discord_id && queue[j].match_info->0.role
            != queue[k].match_info->0.role
}

/// A player's current session, while it exists, is the player's own.
pub open spec fn pointers_owned(s: StateModel) -> bool {
    forall|p: Seq<char>|
        #[trigger] s.player_sessions.contains_key(p) && s.queue.contains_key(s.player_sessions[p])
            ==> s.queue[s.player_sessions[p]].discord_id == p
}

/// A challenge stands under its own id and is between two players; the session
/// that waits for it, while it exists, is the challenger's, and of the build that
/// the challenge asks for.
pub open spec fn challenge_in_order(s: StateModel, k: Seq<char>) -> bool {
    let c = s.challenges[k];
    &&& c.challenge_id == k
    &&& c.challenger_discord_id != c.target_discord_id
    &&& s.queue.contains_key(c.challenger_session_id) ==> {
        let e = s.queue[c.challenger_session_id];
        e.discord_id == c.challenger_discord_id && e.app_version == c.app_version && e.rom_hash
            == c.rom_hash
    }
}

/// Every challenge is in order.
pub open spec fn challenges_in_order(s: StateModel) -> bool {
    forall|k: Seq<char>| #[trigger] s.challenges.contains_key(k) ==> challenge_in_order(s, k)
}

/// Rooms, heartbeats and chat messages stand under their own ids.
pub open spec fn rows_keyed(s: StateModel) -> bool {
    &&& forall|k: Seq<char>|
        #[trigger] s.spar_rooms.contains_key(k) ==> s.spar_rooms[k].room_id == k
    &&& forall|k: Seq<char>|
        #[trigger] s.lobby_presence.contains_key(k) ==> s.lobby_presence[k].player_id == k
    &&& forall|k: Seq<char>|
        #[trigger] s.lobby_chat.contains_key(k) ==> s.lobby_chat[k].message_id == k
}

/// Every lobby stands under its own id and is in order.
pub open spec fn lobbies_in_order(s: StateModel) -> bool {
    forall|k: Seq<char>| #[trigger]
        s.koh_lobbies.contains_key(k) ==> s.koh_lobbies[k].id == k && lobby_in_order(
            s.koh_lobbies[k],
        )
}

/// Whether a session is that of the host or of the joining player of a lobby's
/// match.
pub open spec fn session_of_match(c: ActiveMatchModel, k: Seq<char>, e: QueueEntryModel) -> bool {
    ||| k == c.host_session && e.discord_id == c.host && e.match_info->0.role == PlayerRole::Host
    ||| k == c.join_session && e.discord_id == c.join && e.match_info->0.role == PlayerRole::Join
}

/// The sessions in the room of a lobby's match are those of the two who play.
pub open spec fn matches_seated(s: StateModel) -> bool {
    forall|id: Seq<char>, k: Seq<char>|
        #[trigger] s.koh_lobbies.contains_key(id) && #[trigger] s.queue.contains_key(k)
            && s.koh_lobbies[id].current is Some && in_room(
            s.queue[k],
            s.koh_lobbies[id].current->0.room_id,
        ) ==> session_of_match(s.koh_lobbies[id].current->0, k, s.queue[k])
}

/// No two lobbies play in one room.
pub open spec fn matches_apart(s: StateModel) -> bool {
    forall|i: Seq<char>, j: Seq<char>|
        #[trigger] s.koh_lobbies.contains_key(i) && #[trigger] s.koh_lobbies.contains_key(j)
            && s.koh_lobbies[i].current is Some && playing_in(
            s.koh_lobbies[j],
            s.koh_lobbies[i].current->0.room_id,
        ) ==> i == j
}

/// The tables are in order.
pub open spec fn in_order(s: StateModel) -> bool {
    &&& sessions_keyed(s.queue)
    &&& rooms_paired(s.queue)
    &&& pointers_owned(s)
    &&& challenges_in_order(s)
    &&& rows_keyed(s)
    &&& lobbies_in_order(s)
    &&& matches_seated(s)
    &&& matches_apart(s)
}

/// No session, pointer or challenge has this session id yet.
pub open spec fn new_session_id(s: StateModel, id: Seq<char>) -> bool {
    &&& !s.queue.contains_key(id)
    &&& forall|p: Seq<char>|
        #[trigger] s.player_sessions.contains_key(p) ==> s.player_sessions[p] != id
    &&& forall|k: Seq<char>|
        #[trigger] s.challenges.contains_key(k) ==> s.challenges[k].challenger_session_id != id
}

/// Nobody is in this room yet, and no lobby plays in it.
pub open spec fn new_room_id(s: StateModel, id: Seq<char>) -> bool {
    &&& forall|k: Seq<char>| #[trigger] s.queue.contains_key(k) ==> !in_room(s.queue[k], id)
    &&& forall|k: Seq<char>| #[trigger]
        s.koh_lobbies.contains_key(k) ==> !playing_in(s.koh_lobbies[k], id)
}

// What changes little

/// Whether two sessions are the same but for being called off and for the relayed
/// address.
pub open spec fn same_session(a: QueueEntryModel, b: QueueEntryModel) -> bool {
    &&& a.session_id == b.session_id
    &&& a.discord_id == b.discord_id
    &&& a.app_version == b.app_version
    &&& a.rom_hash == b.rom_hash
    &&& a.match_info == b.match_info
}

/// Whether `after` holds sessions of `before` only, each the same but for being
/// called off and for the relayed address.
pub open spec fn no_new_sessions(before: Sessions, after: Sessions) -> bool {
    forall|k: Seq<char>| #[trigger]
        after.contains_key(k) ==> before.contains_key(k) && same_session(before[k], after[k])
}

/// Whether the lobbies of `after` are in order and play no match that they did not
/// play in `before`.
pub open spec fn no_new_matches(before: StateModel, after: StateModel) -> bool {
    forall|k: Seq<char>| #[trigger]
        after.koh_lobbies.contains_key(k) ==> {
            &&& after.koh_lobbies[k].id == k
            &&& lobby_in_order(after.koh_lobbies[k])
            &&& after.koh_lobbies[k].current is Some ==> before.koh_lobbies.contains_key(k)
                && before.koh_lobbies[k].current == after.koh_lobbies[k].current
        }
}

/// Whether `after` differs from `before` only by what is gone, by sessions that
/// are called off or have a relayed address, and by lobbies that play nothing new.
pub open spec fn only_less(before: StateModel, after: StateModel) -> bool {
    &&& no_new_sessions(before.queue, after.queue)
    &&& after.player_sessions.submap_of(before.player_sessions)
    &&& after.challenges.submap_of(before.challenges)
    &&& after.spar_rooms.submap_of(before.spar_rooms)
    &&& after.lobby_presence.submap_of(before.lobby_presence)
    &&& after.lobby_chat.submap_of(before.lobby_chat)
    &&& no_new_matches(before, after)
}

/// What only takes away keeps the order.
pub proof fn lemma_less_keeps_order(before: StateModel, after: StateModel)
    requires
        in_order(before),
        only_less(before, after),
    ensures
        in_order(after),
{
    assert forall|j: Seq<char>, k: Seq<char>|
        #[trigger] after.queue.contains_key(j) && #[trigger] after.queue.contains_key(k) && j != k
            && after.queue[j].match_info is Some && in_room(
            after.queue[k],
            after.queue[j].match_info->0.room_id,
        ) implies after.queue[j].discord_id != after.queue[k].discord_id
        && after.queue[j].match_info->0.role != after.queue[k].match_info->0.role by {
        assert(before.queue.contains_key(j) && before.queue.contains_key(k));
    }
    assert forall|k: Seq<char>| #[trigger]
        after.challenges.contains_key(k) implies challenge_in_order(after, k) by {
        assert(before.challenges.contains_key(k));
        assert(challenge_in_order(before, k));
    }
    assert forall|p: Seq<char>|
        #[trigger] after.player_sessions.contains_key(p) && after.queue.contains_key(
            after.player_sessions[p],
        ) implies after.queue[after.player_sessions[p]].discord_id == p by {
        assert(before.player_sessions.contains_key(p));
    }
    assert(sessions_keyed(after.queue));
    assert forall|id: Seq<char>, k: Seq<char>|
        #[trigger] after.koh_lobbies.contains_key(id) && #[trigger] after.queue.contains_key(k)
            && after.koh_lobbies[id].current is Some && in_room(
            after.queue[k],
            after.koh_lobbies[id].current->0.room_id,
        ) implies session_of_match(after.koh_lobbies[id].current->0, k, after.queue[k]) by {
        assert(before.koh_lobbies.contains_key(id) && before.queue.contains_key(k));
    }
    assert forall|i: Seq<char>, j: Seq<char>|
        #[trigger] after.koh_lobbies.contains_key(i) && #[trigger] after.koh_lobbies.contains_key(j)
            && after.koh_lobbies[i].current is Some && playing_in(
            after.koh_lobbies[j],
            after.koh_lobbies[i].current->0.room_id,
        ) implies i == j by {
        assert(before.koh_lobbies.contains_key(i) && before.koh_lobbies.contains_key(j));
    }
    assert forall|k: Seq<char>| #[trigger] after.spar_rooms.contains_key(k) implies after.spar_rooms[k].room_id
        == k by {
        assert(before.spar_rooms.contains_key(k));
    }
    assert forall|k: Seq<char>| #[trigger]
        after.lobby_presence.contains_key(k) implies after.lobby_presence[k].player_id == k by {
        assert(before.lobby_presence.contains_key(k));
    }
    assert forall|k: Seq<char>| #[trigger] after.lobby_chat.contains_key(k) implies after.lobby_chat[k].message_id
        == k by {
        assert(before.lobby_chat.contains_key(k));
    }
}

/// A new session that is not matched keeps the order.
proof fn lemma_waiting_session_keeps_order(s: StateModel, e: QueueEntryModel)
    requires
        in_order(s),
        new_session_id(s, e.session_id),
        e.match_info is None,
    ensures
        in_order(session_added(s, e)),
{
    let after = session_added(s, e);
    assert forall|k: Seq<char>| #[trigger]
        after.challenges.contains_key(k) implies challenge_in_order(after, k) by {
        assert(challenge_in_order(s, k));
    }
}

/// Pairing two players in a new room keeps the order.
proof fn lemma_pairing_keeps_order(
    s: StateModel,
    host_id: Seq<char>,
    host_username: Seq<char>,
    player: ClaimsModel,
    stun_endpoint: Seq<char>,
    app_version: Seq<char>,
    rom_hash: Seq<char>,
    session_id: Seq<char>,
    room_id: Seq<char>,
    now: Timestamp,
)
    requires
        in_order(s),
        s.queue.contains_key(host_id),
        s.queue[host_id].discord_id != player.sub,
        new_session_id(s, session_id),
        new_room_id(s, room_id),
    ensures
        in_order(
            paired(
                s,
                host_id,
                host_username,
                player,
                stun_endpoint,
                app_version,
                rom_hash,
                session_id,
                room_id,
                now,
            ),
        ),
{
    let after = paired(
        s,
        host_id,
        host_username,
        player,
        stun_endpoint,
        app_version,
        rom_hash,
        session_id,
        room_id,
        now,
    );
    assert(host_id != session_id);
    assert forall|j: Seq<char>, k: Seq<char>|
        #[trigger] after.queue.contains_key(j) && #[trigger] after.queue.contains_key(k) && j != k
            && after.queue[j].match_info is Some && in_room(
            after.queue[k],
            after.queue[j].match_info->0.room_id,
        ) implies after.queue[j].discord_id != after.queue[k].discord_id
        && after.queue[j].match_info->0.role != after.queue[k].match_info->0.role by {
        assert(j == host_id || j == session_id || (s.queue.contains_key(j) && after.queue[j]
            == s.queue[j]));
        assert(k == host_id || k == session_id || (s.queue.contains_key(k) && after.queue[k]
            == s.queue[k]));
    }
    assert forall|k: Seq<char>| #[trigger]
        after.challenges.contains_key(k) implies challenge_in_order(after, k) by {
        assert(challenge_in_order(s, k));
    }
}

// Every request keeps the order

/// A service that has just started is in order.
pub proof fn a_fresh_state_is_in_order(config: ConfigModel)
    ensures
        in_order(fresh_state(config)),
{
}

/// What the first match in an order is.
pub proof fn lemma_first_in<M>(
    order: Seq<Seq<char>>,
    rows: Map<Seq<char>, M>,
    p: spec_fn(M) -> bool,
)
    ensures
        match first_in(order, rows, p) {
            Some(k) => order.contains(k) && rows.contains_key(k) && p(rows[k]),
            None => forall|k: Seq<char>|
                order.contains(k) && #[trigger] rows.contains_key(k) ==> !p(rows[k]),
        },
    decreases order.len(),
{
    if order.len() > 0 {
        let rest = order.drop_first();
        lemma_first_in(rest, rows, p);
        if rows.contains_key(order[0]) && p(rows[order[0]]) {
            assert(order.contains(order[0]));
        } else {
            match first_in(rest, rows, p) {
                Some(k) => {
                    let i = choose|i: int| 0 <= i < rest.len() && rest[i] == k;
                    assert(order[i + 1] == k);
                },
                None => {
                    assert forall|k: Seq<char>|
                        order.contains(k) && #[trigger] rows.contains_key(k) implies !p(
                        rows[k],
                    ) by {
                        let i = choose|i: int| 0 <= i < order.len() && order[i] == k;
                        if i > 0 {
                            assert(rest[i - 1] == k);
                        }
                    }
                },
            }
        }
    }
}

/// Dropping a player's previous session only takes away.
proof fn lemma_requeued(s: StateModel, player: Seq<char>)
    requires
        in_order(s),
    ensures
        in_order(requeued(s, player)),
        no_new_sessions(s.queue, requeued(s, player).queue),
{
    let after = requeued(s, player);
    assert(only_less(s, after));
    lemma_less_keeps_order(s, after);
}

/// A request for an opponent keeps the tables in order.
pub proof fn lfg_keeps_order(
    s: StateModel,
    player: ClaimsModel,
    req: LfgRequestModel,
    session_id: Seq<char>,
    room_id: Seq<char>,
    now: Timestamp,
    order: Seq<Seq<char>>,
)
    requires
        in_order(s),
        new_session_id(s, session_id),
        new_room_id(s, room_id),
    ensures
        in_order(lfg(s, player, req, session_id, room_id, now, order).0),
{
    let r = requeued(s, player.sub);
    lemma_requeued(s, player.sub);
    let p = |e: QueueEntryModel| eligible(e, player.sub, req.app_version, req.rom_hash);
    lemma_first_in(order, r.queue, p);
    match first_opponent(order, r.queue, player.sub, req.app_version, req.rom_hash) {
        Some(host_id) => {
            assert(p(r.queue[host_id]));
            lemma_pairing_keeps_order(
                r,
                host_id,
                r.queue[host_id].username,
                player,
                req.stun_endpoint,
                req.app_version,
                req.rom_hash,
                session_id,
                room_id,
                now,
            );
        },
        None => {
            lemma_waiting_session_keeps_order(
                r,
                opened(
                    session_id,
                    player.sub,
                    player.username,
                    req.stun_endpoint,
                    req.app_version,
                    req.rom_hash,
                    now,
                    None,
                ),
            );
        },
    }
}

/// Leaving the queue keeps the tables in order.
pub proof fn cancelling_keeps_order(s: StateModel, player: Seq<char>)
    requires
        in_order(s),
    ensures
        in_order(queue_cancelled(s, player)),
{
    let after = queue_cancelled(s, player);
    assert(only_less(s, after));
    lemma_less_keeps_order(s, after);
}

/// Reporting a relayed address keeps the tables in order.
pub proof fn turn_ready_keeps_order(
    s: StateModel,
    player: Seq<char>,
    session_id: Seq<char>,
    req: TurnReadyRequestModel,
)
    requires
        in_order(s),
    ensures
        in_order(relay_reported(s, player, session_id, req).0),
{
    let after = relay_reported(s, player, session_id, req).0;
    assert(only_less(s, after));
    lemma_less_keeps_order(s, after);
}

/// Opening a spar room keeps the tables in order.
pub proof fn creating_a_room_keeps_order(
    s: StateModel,
    player: ClaimsModel,
    req: CreateRoomRequestModel,
    room_id: Seq<char>,
    session_id: Seq<char>,
    now: Timestamp,
)
    requires
        in_order(s),
        new_session_id(s, session_id),
    ensures
        in_order(room_created(s, player, req, room_id, session_id, now).0),
{
    let room = new_room(player, req, room_id, now);
    let with_room = StateModel { spar_rooms: s.spar_rooms.insert(room_id, room), ..s };
    assert(in_order(with_room)) by {
        assert forall|k: Seq<char>| #[trigger]
            with_room.challenges.contains_key(k) implies challenge_in_order(with_room, k) by {
            assert(challenge_in_order(s, k));
        }
    }
    lemma_waiting_session_keeps_order(
        with_room,
        opened(
            session_id,
            player.sub,
            player.username,
            req.stun_endpoint,
            req.app_version,
            req.rom_hash,
            now,
            None,
        ),
    );
}

/// Joining a spar room keeps the tables in order.
pub proof fn joining_a_room_keeps_order(
    s: StateModel,
    player: ClaimsModel,
    room_id: Seq<char>,
    req: JoinRoomRequestModel,
    session_id: Seq<char>,
    match_room_id: Seq<char>,
    now: Timestamp,
)
    requires
        in_order(s),
        new_session_id(s, session_id),
        new_room_id(s, match_room_id),
    ensures
        in_order(room_joined(s, player, room_id, req, session_id, match_room_id, now).0),
{
    let used = StateModel { spar_rooms: s.spar_rooms.remove(room_id), ..s };
    assert(only_less(s, used));
    lemma_less_keeps_order(s, used);
    let (after, res) = room_joined(s, player, room_id, req, session_id, match_room_id, now);
    if res is Ok {
        let room = s.spar_rooms[room_id];
        let host_id = s.player_sessions[room.creator_discord_id];
        assert(s.player_sessions.contains_key(room.creator_discord_id));
        lemma_pairing_keeps_order(
            used,
            host_id,
            room.creator_username,
            player,
            req.stun_endpoint,
            req.app_version,
            req.rom_hash,
            session_id,
            match_room_id,
            now,
        );
    }
}

/// A heartbeat keeps the tables in order.
pub proof fn heartbeats_keep_order(
    s: StateModel,
    player: ClaimsModel,
    status: Seq<char>,
    now: Timestamp,
)
    requires
        in_order(s),
    ensures
        in_order(touched(s, player, status, now)),
{
    let after = touched(s, player, status, now);
    assert forall|k: Seq<char>| #[trigger]
        after.challenges.contains_key(k) implies challenge_in_order(after, k) by {
        assert(challenge_in_order(s, k));
    }
}

/// A chat message keeps the tables in order.
pub proof fn chatting_keeps_order(
    s: StateModel,
    player: ClaimsModel,
    req: LobbyChatRequestModel,
    message_id: Seq<char>,
    now: Timestamp,
)
    requires
        in_order(s),
    ensures
        in_order(chatted(s, player, req, message_id, now).0),
{
    let after = chatted(s, player, req, message_id, now).0;
    assert forall|k: Seq<char>| #[trigger]
        after.challenges.contains_key(k) implies challenge_in_order(after, k) by {
        assert(challenge_in_order(s, k));
    }
}

/// Sending a challenge keeps the tables in order.
pub proof fn challenging_keeps_order(
    s: StateModel,
    player: ClaimsModel,
    req: ChallengeRequestModel,
    challenge_id: Seq<char>,
    session_id: Seq<char>,
    now: Timestamp,
)
    requires
        in_order(s),
        new_session_id(s, session_id),
    ensures
        in_order(challenge_sent(s, player, req, challenge_id, session_id, now).0),
{
    let (after, res) = challenge_sent(s, player, req, challenge_id, session_id, now);
    if res is Ok {
        let e = opened(
            session_id,
            player.sub,
            player.username,
            req.stun_endpoint,
            req.app_version,
            req.rom_hash,
            now,
            None,
        );
        lemma_waiting_session_keeps_order(s, e);
        let waits = session_added(s, e);
        let c = new_challenge(s, player, req, challenge_id, session_id, now);
        let sent = StateModel { challenges: s.challenges.insert(challenge_id, c), ..waits };
        assert(in_order(sent)) by {
            assert forall|k: Seq<char>| #[trigger]
                sent.challenges.contains_key(k) implies challenge_in_order(sent, k) by {
                if k != challenge_id {
                    assert(waits.challenges.contains_key(k));
                    assert(challenge_in_order(waits, k));
                }
            }
        }
        heartbeats_keep_order(sent, player, "challenging"@, now);
    }
}

/// Accepting a challenge keeps the tables in order.
pub proof fn accepting_keeps_order(
    s: StateModel,
    player: ClaimsModel,
    challenge_id: Seq<char>,
    req: AcceptChallengeRequestModel,
    session_id: Seq<char>,
    room_id: Seq<char>,
    now: Timestamp,
)
    requires
        in_order(s),
        new_session_id(s, session_id),
        new_room_id(s, room_id),
    ensures
        in_order(challenge_accepted(s, player, challenge_id, req, session_id, room_id, now).0),
{
    let used = StateModel { challenges: s.challenges.remove(challenge_id), ..s };
    assert(only_less(s, used));
    lemma_less_keeps_order(s, used);
    let (after, res) = challenge_accepted(
        s,
        player,
        challenge_id,
        req,
        session_id,
        room_id,
        now,
    );
    if res is Ok {
        let c = s.challenges[challenge_id];
        assert(challenge_in_order(s, challenge_id));
        lemma_pairing_keeps_order(
            used,
            c.challenger_session_id,
            c.challenger_username,
            player,
            req.stun_endpoint,
            req.app_version,
            req.rom_hash,
            session_id,
            room_id,
            now,
        );
        let met = paired(
            used,
            c.challenger_session_id,
            c.challenger_username,
            player,
            req.stun_endpoint,
            req.app_version,
            req.rom_hash,
            session_id,
            room_id,
            now,
        );
        assert(only_less(met, after));
        lemma_less_keeps_order(met, after);
    }
}

/// Declining a challenge keeps the tables in order.
pub proof fn declining_keeps_order(s: StateModel, player: Seq<char>, challenge_id: Seq<char>)
    requires
        in_order(s),
    ensures
        in_order(challenge_declined(s, player, challenge_id).0),
{
    let after = challenge_declined(s, player, challenge_id).0;
    assert(only_less(s, after));
    lemma_less_keeps_order(s, after);
}

/// Pushing a frame keeps the tables in order.
pub proof fn pushing_a_frame_keeps_order(
    s: StateModel,
    player: Seq<char>,
    session_id: Seq<char>,
    req: SpectatorPushRequestModel,
    now: Timestamp,
    order: Seq<Seq<char>>,
)
    requires
        in_order(s),
    ensures
        in_order(frame_pushed(s, player, session_id, req, now, order).0),
{
    let after = frame_pushed(s, player, session_id, req, now, order).0;
    assert(only_less(s, after));
    lemma_less_keeps_order(s, after);
}

/// Pushing a screenshot keeps the tables in order.
pub proof fn pushing_a_screenshot_keeps_order(
    s: StateModel,
    player: Seq<char>,
    lobby_id: Seq<char>,
    bytes: Seq<u8>,
    now: Timestamp,
)
    requires
        in_order(s),
    ensures
        in_order(thumb_put(s, player, lobby_id, bytes, now).0),
{
    let after = thumb_put(s, player, lobby_id, bytes, now).0;
    assert(only_less(s, after));
    lemma_less_keeps_order(s, after);
}

/// Rotating a lobby after a result keeps the tables in order.
pub proof fn a_decided_match_keeps_order(
    s: StateModel,
    room_id: Seq<char>,
    winner: Seq<char>,
    loser: Seq<char>,
    now: Timestamp,
    order: Seq<Seq<char>>,
)
    requires
        in_order(s),
    ensures
        in_order(match_decided(s, room_id, winner, loser, now, order)),
{
    let after = match_decided(s, room_id, winner, loser, now, order);
    let p = |l: KohLobbyModel| playing_in(l, room_id);
    lemma_first_in(order, s.koh_lobbies, p);
    if let Some(id) = lobby_in(order, s.koh_lobbies, room_id) {
        assert(p(s.koh_lobbies[id]));
        deciding_keeps_order(s.koh_lobbies[id], winner, loser, now);
        assert(only_less(s, after));
        lemma_less_keeps_order(s, after);
    }
}

/// Reporting a result keeps the tables in order.
pub proof fn reporting_keeps_order(
    s: StateModel,
    player: Seq<char>,
    req: MatchResultRequestModel,
    now: Timestamp,
    order: Seq<Seq<char>>,
    lobby_order: Seq<Seq<char>>,
)
    requires
        in_order(s),
    ensures
        in_order(reported(s, player, req, now, order, lobby_order).0),
{
    let own = s.queue[req.session_id];
    let id = result_id(own.match_info->0.room_id, req.match_index);
    let counted = confirmed(s, id, now);
    assert(only_less(s, counted));
    lemma_less_keeps_order(s, counted);
    let (settled_state, res) = settled(counted, own, req, now, order, lobby_order);
    if settled_state != counted {
        let room_id = own.match_info->0.room_id;
        let k = first_partner(order, counted.queue, own.discord_id, room_id)->0;
        let (host, join) = seated(own, counted.queue[k])->0;
        let decided = verdict(
            host,
            join,
            req.p1_score,
            req.p2_score,
            result_id(room_id, req.match_index),
            own.rom_hash,
        );
        a_decided_match_keeps_order(
            counted,
            room_id,
            decided.winner_id,
            decided.loser_id,
            now,
            lobby_order,
        );
    }
    let after = reported(s, player, req, now, order, lobby_order).0;
    if after != settled_state {
        assert(only_less(s, after));
        lemma_less_keeps_order(s, after);
    }
}

/// Opening a lobby keeps the tables in order.
pub proof fn creating_a_lobby_keeps_order(
    s: StateModel,
    player: ClaimsModel,
    req: CreateLobbyRequestModel,
    code: Seq<char>,
    now: Timestamp,
)
    requires
        in_order(s),
    ensures
        in_order(lobby_created(s, player, req, code, now).0),
{
    new_lobbies_are_in_order(player, req, code, now);
    let after = lobby_created(s, player, req, code, now).0;
    assert(only_less(s, after));
    lemma_less_keeps_order(s, after);
}

/// Joining a lobby keeps the tables in order.
pub proof fn joining_a_lobby_keeps_order(
    s: StateModel,
    player: ClaimsModel,
    lobby_id: Seq<char>,
    req: JoinLobbyRequestModel,
    now: Timestamp,
)
    requires
        in_order(s),
    ensures
        in_order(lobby_joined(s, player, lobby_id, req, now).0),
{
    let after = lobby_joined(s, player, lobby_id, req, now).0;
    if s.koh_lobbies.contains_key(lobby_id) {
        joining_keeps_order(s.koh_lobbies[lobby_id], player, req, now);
    }
    assert(only_less(s, after));
    lemma_less_keeps_order(s, after);
}

/// Looking at a lobby keeps the tables in order.
pub proof fn seeing_a_lobby_keeps_order(
    s: StateModel,
    player: Seq<char>,
    lobby_id: Seq<char>,
    now: Timestamp,
)
    requires
        in_order(s),
    ensures
        in_order(lobby_seen(s, player, lobby_id, now).0),
{
    let after = lobby_seen(s, player, lobby_id, now).0;
    if s.koh_lobbies.contains_key(lobby_id) {
        let l = s.koh_lobbies[lobby_id];
        being_seen_keeps_order(l, player, now);
        ready_checks_keep_order(seen(l, player, now), now);
        lemma_advanced(pending_checked(seen(l, player, now), now), now);
    }
    assert(only_less(s, after));
    lemma_less_keeps_order(s, after);
}

/// Saying that one is ready keeps the tables in order.
pub proof fn readying_a_lobby_keeps_order(
    s: StateModel,
    player: Seq<char>,
    lobby_id: Seq<char>,
    room_id: Seq<char>,
    host_session: Seq<char>,
    join_session: Seq<char>,
    now: Timestamp,
)
    requires
        in_order(s),
        new_session_id(s, host_session),
        new_session_id(s, join_session),
        host_session != join_session,
        new_room_id(s, room_id),
    ensures
        in_order(
            lobby_readied(s, player, lobby_id, room_id, host_session, join_session, now).0,
        ),
{
    let after = lobby_readied(s, player, lobby_id, room_id, host_session, join_session, now).0;
    if s.koh_lobbies.contains_key(lobby_id) {
        let l = s.koh_lobbies[lobby_id];
        readying_keeps_order(s, l, player, room_id, host_session, join_session, now);
        being_seen_keeps_order(l, player, now);
        let checked = pending_checked(seen(l, player, now), now);
        ready_checks_keep_order(seen(l, player, now), now);
        let (s2, l2) = readied(s, l, player, room_id, host_session, join_session, now);
        if checked.pending is Some && checked.pending->0.challenger == player {
            let p = checked.pending->0;
            assert(two_members(checked.members, p.champion, p.challenger));
            lemma_seat(checked.members, p.champion, 0);
            lemma_seat(checked.members, p.challenger, 0);
            let c = l2.current->0;
            assert(after.koh_lobbies =~= s.koh_lobbies.insert(lobby_id, l2));
            assert forall|k: Seq<char>| #[trigger] after.queue.contains_key(k) implies k
                == host_session || k == join_session || (s.queue.contains_key(k) && after.queue[k]
                == s.queue[k]) by {}
            assert forall|k: Seq<char>| #[trigger]
                after.challenges.contains_key(k) implies challenge_in_order(after, k) by {
                assert(challenge_in_order(s, k));
            }
            assert(sessions_keyed(after.queue));
            assert(rooms_paired(after.queue));
            assert(pointers_owned(after));
            assert(matches_seated(after));
            assert(matches_apart(after));
        } else {
            assert(only_less(s, after));
            lemma_less_keeps_order(s, after);
        }
    }
}

/// Leaving a lobby keeps the tables in order.
pub proof fn leaving_a_lobby_keeps_order(
    s: StateModel,
    player: Seq<char>,
    lobby_id: Seq<char>,
    now: Timestamp,
)
    requires
        in_order(s),
    ensures
        in_order(lobby_left(s, player, lobby_id, now)),
{
    let after = lobby_left(s, player, lobby_id, now);
    if s.koh_lobbies.contains_key(lobby_id) {
        let l = s.koh_lobbies[lobby_id];
        leaving_keeps_order(l, player, now);
    }
    assert(only_less(s, after));
    lemma_less_keeps_order(s, after);
}

/// Players' leaving neither renames a lobby nor starts a match in it.
proof fn lemma_all_left_plays_nothing_new(
    l: KohLobbyModel,
    players: Seq<Seq<char>>,
    now: Timestamp,
)
    ensures
        all_left(l, players, now).id == l.id,
        all_left(l, players, now).current is None || all_left(l, players, now).current == l.current,
    decreases players.len(),
{
    if players.len() > 0 {
        lemma_all_left_plays_nothing_new(l, players.drop_last(), now);
    }
}

/// Sweeping keeps the tables in order.
pub proof fn sweeping_the_tables_keeps_order(s: StateModel, now: Timestamp, order: Seq<Seq<char>>)
    requires
        in_order(s),
    ensures
        in_order(swept(s, now, order)),
{
    let a = queue_swept(s, now, order);
    assert(only_less(s, a));
    lemma_less_keeps_order(s, a);
    let b = rows_swept(a, now);
    assert(only_less(a, b));
    lemma_less_keeps_order(a, b);
    let c = challenges_swept(b, now);
    assert(only_less(b, c));
    lemma_less_keeps_order(b, c);
    let d = lobbies_swept(c, now);
    assert(no_new_matches(c, d)) by {
        assert forall|k: Seq<char>| #[trigger] d.koh_lobbies.contains_key(k) implies {
            &&& d.koh_lobbies[k].id == k
            &&& lobby_in_order(d.koh_lobbies[k])
            &&& d.koh_lobbies[k].current is Some ==> c.koh_lobbies.contains_key(k)
                && c.koh_lobbies[k].current == d.koh_lobbies[k].current
        } by {
            let l = c.koh_lobbies[k];
            assert(c.koh_lobbies.contains_key(k));
            sweeping_keeps_order(l, now);
            let free = unstuck(l, now);
            lemma_all_left_plays_nothing_new(free, idle_players(free, now), now);
        }
    }
    assert(only_less(c, d));
    lemma_less_keeps_order(c, d);
}

// What follows from the order

/// In a room, a player has at most one partner, so in whatever order sessions are
/// met, the partner who is found is the same.
pub proof fn partners_are_unique(
    s: StateModel,
    session_id: Seq<char>,
    order: Seq<Seq<char>>,
    other_order: Seq<Seq<char>>,
)
    requires
        in_order(s),
        s.queue.contains_key(session_id),
        s.queue[session_id].match_info is Some,
        lists_keys(order, s.queue),
        lists_keys(other_order, s.queue),
    ensures
        ({
            let e = s.queue[session_id];
            let room_id = e.match_info->0.room_id;
            &&& first_partner(order, s.queue, e.discord_id, room_id) == first_partner(
                other_order,
                s.queue,
                e.discord_id,
                room_id,
            )
            &&& forall|k: Seq<char>| #[trigger]
                s.queue.contains_key(k) && partner(s.queue[k], e.discord_id, room_id)
                    ==> first_partner(order, s.queue, e.discord_id, room_id) == Some(k)
        }),
{
    let e = s.queue[session_id];
    let room_id = e.match_info->0.room_id;
    let p = |x: QueueEntryModel| partner(x, e.discord_id, room_id);
    lemma_first_in(order, s.queue, p);
    lemma_first_in(other_order, s.queue, p);
    let found = first_partner(order, s.queue, e.discord_id, room_id);
    let other = first_partner(other_order, s.queue, e.discord_id, room_id);
    assert(found == first_in(order, s.queue, p));
    assert(other == first_in(other_order, s.queue, p));
    assert forall|k: Seq<char>| #[trigger]
        s.queue.contains_key(k) && partner(s.queue[k], e.discord_id, room_id) implies found
        == Some(k) by {
        assert(order.contains(k));
        assert(p(s.queue[k]));
        let w = found->0;
        assert(s.queue.contains_key(w) && p(s.queue[w]));
        lemma_one_partner(s.queue, session_id, k, w);
    }
    if let Some(w) = other {
        assert(s.queue.contains_key(w) && p(s.queue[w]));
        assert(order.contains(w));
    } else if let Some(w) = found {
        assert(s.queue.contains_key(w) && p(s.queue[w]));
        assert(other_order.contains(w));
    }
}

/// Two partners of one session are one.
proof fn lemma_one_partner(
    queue: Sessions,
    session_id: Seq<char>,
    a: Seq<char>,
    b: Seq<char>,
)
    requires
        rooms_paired(queue),
        queue.contains_key(session_id),
        queue[session_id].match_info is Some,
        queue.contains_key(a),
        queue.contains_key(b),
        partner(queue[a], queue[session_id].discord_id, queue[session_id].match_info->0.room_id),
        partner(queue[b], queue[session_id].discord_id, queue[session_id].match_info->0.room_id),
    ensures
        a == b,
{
    assert(a != session_id && b != session_id);
    if a != b {
        assert(in_room(queue[b], queue[a].match_info->0.room_id));
        assert(queue[a].match_info->0.role != queue[b].match_info->0.role);
        assert(queue[session_id].match_info->0.role != queue[a].match_info->0.role);
        assert(queue[session_id].match_info->0.role != queue[b].match_info->0.role);
    }
}

} // verus!
