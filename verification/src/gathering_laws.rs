//! Where players find each other: open rooms, challenges, and the general lobby
//! with its chat.

use vstd::prelude::*;
use crate::challenges::{
    challenge_accepted, challenge_declined, challenge_sent, challenge_shown, challenges_of,
    lists_challenges,
};
use crate::error::AppErrorModel;
use crate::koh::{lemma_seat, seat};
use crate::lobby_laws::lemma_filter;
use crate::models::{
    AcceptChallengeRequestModel, ChallengeListResponseModel, ChallengeModel, ChallengeRequestModel,
    ChallengeSummary, ChallengeSummaryModel, ClaimsModel, CreateRoomRequestModel,
    GeneralLobbyResponseModel, JoinRoomRequestModel, KohLobbyModel, LobbyChatEntry,
    LobbyChatEntryModel, LobbyChatMessageModel, LobbyChatRequestModel, LobbyPresenceModel,
    LobbyRoomSummary, LobbyRoomSummaryModel, LobbyUser, LobbyUserModel, QueueEntryModel,
    SparRoomModel,
};
use crate::names::{clean_chat, clean_lobby_name};
use crate::pairing_laws::new_for;
use crate::presence::{
    chat_kept, chat_line, chatted, fetches_wanted, latest_lines, lobby_snapshot, looked_in, present,
    rating_fetches, rating_wanted, shows_lobby, touched, user_shown, users_present,
};
use crate::ranking::{rank_less, ranked, sorted_rows, text_less, Ranked};
use crate::rooms::{
    lobby_summary, public_lobbies, public_rooms, room_created, room_joined, room_summary,
};
use crate::state::StateModel;
use crate::table::lists_keys;
use crate::text::strip_back;
use crate::time::{rfc3339_at, Timestamp};

verus! {

// The order of texts

/// Whether a text comes before another in the order of their characters: it is a
/// proper beginning of the other, or the first character in which they differ is
/// the smaller one.
pub open spec fn earlier(a: Seq<char>, b: Seq<char>) -> bool {
    exists|n: int|
        {
            &&& 0 <= n <= a.len() && n < b.len()
            &&& #[trigger] a.take(n) == b.take(n)
            &&& n == a.len() || a[n] < b[n]
        }
}

/// Texts are ordered character by character.
pub proof fn texts_are_ordered_by_character(a: Seq<char>, b: Seq<char>)
    ensures
        text_less(a, b) <==> earlier(a, b),
    decreases a.len(),
{
    if b.len() == 0 {
    } else if a.len() == 0 {
        assert(a.take(0) == b.take(0));
    } else if a[0] != b[0] {
        if a[0] < b[0] {
            assert(a.take(0) == b.take(0));
        }
        if earlier(a, b) {
            let n = choose|n: int|
                0 <= n <= a.len() && n < b.len() && #[trigger] a.take(n) == b.take(n) && (n
                    == a.len() || a[n] < b[n]);
            if n > 0 {
                assert(a.take(n)[0] == b.take(n)[0]);
            }
        }
    } else {
        let (x, y) = (a.drop_first(), b.drop_first());
        texts_are_ordered_by_character(x, y);
        if earlier(x, y) {
            let n = choose|n: int|
                0 <= n <= x.len() && n < y.len() && #[trigger] x.take(n) == y.take(n) && (n
                    == x.len() || x[n] < y[n]);
            assert(a.take(n + 1) =~= seq![a[0]] + x.take(n));
            assert(b.take(n + 1) =~= seq![b[0]] + y.take(n));
        }
        if earlier(a, b) {
            let n = choose|n: int|
                0 <= n <= a.len() && n < b.len() && #[trigger] a.take(n) == b.take(n) && (n
                    == a.len() || a[n] < b[n]);
            assert(n > 0);
            assert(x.take(n - 1) =~= a.take(n).drop_first());
            assert(y.take(n - 1) =~= b.take(n).drop_first());
        }
    }
}

/// Whether a row is that of one of the keys that are listed.
spec fn row_of_key<M>(
    order: Seq<Seq<char>>,
    p: spec_fn(Seq<char>) -> bool,
    f: spec_fn(Seq<char>) -> M,
    row: M,
) -> bool {
    exists|k: Seq<char>| #[trigger] order.contains(k) && p(k) && row == f(k)
}

/// What a sorted listing of the rows of a table holds.
proof fn lemma_listed<R: Ranked>(
    order: Seq<Seq<char>>,
    p: spec_fn(Seq<char>) -> bool,
    f: spec_fn(Seq<char>) -> R::V,
    out: Seq<R::V>,
)
    requires
        sorted_rows::<R>(order.filter(p).map_values(f), out),
    ensures
        forall|i: int| 0 <= i < out.len() ==> row_of_key(order, p, f, #[trigger] out[i]),
        forall|k: Seq<char>| #[trigger] order.contains(k) && p(k) ==> out.contains(f(k)),
        order.no_duplicates() && (forall|j: Seq<char>, k: Seq<char>|
            #[trigger] order.contains(j) && #[trigger] order.contains(k) && p(j) && p(k) && f(j)
                == f(k) ==> j == k) ==> out.no_duplicates(),
{
    broadcast use vstd::seq_lib::group_to_multiset_ensures;

    lemma_filter(order, p);
    let kept = order.filter(p);
    let rows = kept.map_values(f);
    assert forall|i: int| 0 <= i < out.len() implies row_of_key(
        order,
        p,
        f,
        #[trigger] out[i],
    ) by {
        assert(out.contains(out[i]));
        assert(out.to_multiset().count(out[i]) > 0);
        assert(rows.contains(out[i]));
        let j = choose|j: int| 0 <= j < rows.len() && rows[j] == out[i];
        assert(kept.contains(kept[j]));
        assert(order.contains(kept[j]) && p(kept[j]) && out[i] == f(kept[j]));
    }
    assert forall|k: Seq<char>| #[trigger] order.contains(k) && p(k) implies out.contains(
        f(k),
    ) by {
        assert(kept.contains(k));
        let j = choose|j: int| 0 <= j < kept.len() && kept[j] == k;
        assert(rows[j] == f(k));
        assert(rows.contains(f(k)));
        assert(rows.to_multiset().count(f(k)) > 0);
    }
    if order.no_duplicates() && (forall|j: Seq<char>, k: Seq<char>|
        #[trigger] order.contains(j) && #[trigger] order.contains(k) && p(j) && p(k) && f(j) == f(
            k,
        ) ==> j == k) {
        assert(rows.no_duplicates()) by {
            assert forall|i: int, j: int|
                0 <= i < rows.len() && 0 <= j < rows.len() && i != j implies rows[i]
                != rows[j] by {
                assert(kept.contains(kept[i]) && kept.contains(kept[j]));
                assert(order.contains(kept[i]) && order.contains(kept[j]));
            }
        }
        rows.lemma_multiset_has_no_duplicates();
        out.lemma_multiset_has_no_duplicates_conv();
    }
}

// Rooms

/// A new room is its creator's, is known by the name that was asked for, and
/// waits with a session of the creator's; only an endpoint without a port is
/// refused. Nothing else changes.
pub proof fn creating_a_room_opens_it(
    s: StateModel,
    player: ClaimsModel,
    req: CreateRoomRequestModel,
    room_id: Seq<char>,
    session_id: Seq<char>,
    now: Timestamp,
)
    ensures
        ({
            let (after, res) = room_created(s, player, req, room_id, session_id, now);
            let room = after.spar_rooms[room_id];
            let e = after.queue[session_id];
            &&& res is Ok <==> req.stun_endpoint.contains(':')
            &&& res is Err ==> after == s && res->Err_0 == AppErrorModel::BadRequest(
                "Invalid stun_endpoint"@,
            )
            &&& res matches Ok(answer) ==> {
                &&& answer.room_id == room_id && answer.creator_session_id == session_id
                &&& room.room_id == room_id
                &&& room.creator_discord_id == player.sub
                &&& room.creator_username == player.username
                &&& room.name == clean_lobby_name(req.name, player.username)
                &&& room.format == req.format && room.private == req.private
                &&& room.app_version == req.app_version && room.rom_hash == req.rom_hash
                &&& room.created_at == now
                &&& new_for(
                    e,
                    session_id,
                    player.sub,
                    player.username,
                    req.stun_endpoint,
                    req.app_version,
                    req.rom_hash,
                    now,
                )
                &&& e.match_info is None
                &&& after == (StateModel {
                    spar_rooms: s.spar_rooms.insert(room_id, room),
                    queue: s.queue.insert(session_id, e),
                    player_sessions: s.player_sessions.insert(player.sub, session_id),
                    ..s
                })
            }
        }),
{
}

/// When a room cannot be joined, and why: the endpoint has no port, the room is
/// gone, it is the player's own, the builds differ, or its creator has left or no
/// longer waits there. A room whose creator is gone is closed; otherwise nothing
/// changes.
pub proof fn joining_a_room_is_refused_for_cause(
    s: StateModel,
    player: ClaimsModel,
    room_id: Seq<char>,
    req: JoinRoomRequestModel,
    session_id: Seq<char>,
    match_room_id: Seq<char>,
    now: Timestamp,
)
    ensures
        ({
            let (after, res) = room_joined(
                s,
                player,
                room_id,
                req,
                session_id,
                match_room_id,
                now,
            );
            let room = s.spar_rooms[room_id];
            let host_id = s.player_sessions[room.creator_discord_id];
            let host = s.queue[host_id];
            let addressed = req.stun_endpoint.contains(':');
            let found = addressed && s.spar_rooms.contains_key(room_id);
            let others = found && room.creator_discord_id != player.sub;
            let fits = others && room.app_version == req.app_version && room.rom_hash
                == req.rom_hash;
            let there = fits && s.player_sessions.contains_key(room.creator_discord_id);
            let held = there && s.queue.contains_key(host_id);
            let waits = held && !host.cancelled && host.match_info is None && host.app_version
                == room.app_version && host.rom_hash == room.rom_hash;
            &&& res is Ok <==> waits
            &&& !addressed ==> res->Err_0 == AppErrorModel::BadRequest("Invalid stun_endpoint"@)
            &&& addressed && !found ==> res->Err_0 == AppErrorModel::NotFound(
                "Room not found or already joined"@,
            )
            &&& found && !others ==> res->Err_0 == AppErrorModel::BadRequest(
                "Cannot join your own room"@,
            )
            &&& others && !fits ==> res->Err_0 == AppErrorModel::BadRequest(
                "Room requires matching app version and ROM hash"@,
            )
            &&& fits && !there ==> res->Err_0 == AppErrorModel::NotFound(
                "Room creator is no longer available"@,
            )
            &&& there && !held ==> res->Err_0 == AppErrorModel::NotFound(
                "Room creator session expired"@,
            )
            &&& held && !waits ==> res->Err_0 == AppErrorModel::NotFound(
                "Room creator is no longer in queue"@,
            )
            &&& res is Err && !fits ==> after == s
            &&& res is Err && fits ==> after == (StateModel {
                spar_rooms: s.spar_rooms.remove(room_id),
                ..s
            })
        }),
{
}

/// Whether a row of a listing is of an open room.
pub open spec fn lists_room(room: SparRoomModel, row: LobbyRoomSummaryModel) -> bool {
    &&& row.id == room.room_id && row.name == room.name
    &&& row.host_username == room.creator_username
    &&& row.format == room.format && row.private == room.private
    &&& row.players == 1 && row.status == "open"@
}

/// Whether a row of a listing is of a lobby: under the host's name, or the first
/// member's where the host is gone; with the number of its members as far as a
/// byte counts; and saying whether two play.
pub open spec fn lists_lobby(l: KohLobbyModel, row: LobbyRoomSummaryModel) -> bool {
    &&& row.id == l.id && row.name == l.name && row.format == l.format && !row.private
    &&& l.members.len() <= 255 ==> row.players == l.members.len()
    &&& l.members.len() > 255 ==> row.players == 255
    &&& l.current is Some ==> row.status == "in match"@
    &&& l.current is None ==> row.status == "open"@
    &&& l.members.len() == 0 ==> row.host_username == "Host"@
    &&& l.members.len() > 0 ==> {
        ||| exists|i: int|
            {
                &&& 0 <= i < l.members.len()
                &&& (#[trigger] l.members[i]).player_id == l.host_id
                &&& row.host_username == l.members[i].username
            }
        ||| row.host_username == l.members[0].username && forall|i: int|
            0 <= i < l.members.len() ==> (#[trigger] l.members[i]).player_id != l.host_id
    }
}

/// Whether a row of a listing is of a room that is not private.
pub open spec fn is_public_room(s: StateModel, row: LobbyRoomSummaryModel) -> bool {
    exists|k: Seq<char>|
        {
            &&& #[trigger] s.spar_rooms.contains_key(k) && !s.spar_rooms[k].private
            &&& lists_room(s.spar_rooms[k], row)
        }
}

/// Whether a row of a listing is of a lobby that is not private.
pub open spec fn is_public_lobby(s: StateModel, row: LobbyRoomSummaryModel) -> bool {
    exists|k: Seq<char>|
        {
            &&& #[trigger] s.koh_lobbies.contains_key(k) && !s.koh_lobbies[k].private
            &&& lists_lobby(s.koh_lobbies[k], row)
        }
}

/// The rows of a listing are in the order of their names, and of their ids where
/// the names are equal.
pub open spec fn listed_by_name(rows: Seq<LobbyRoomSummaryModel>) -> bool {
    forall|i: int, j: int|
        0 <= i < j < rows.len() ==> {
            &&& !earlier((#[trigger] rows[j]).name, (#[trigger] rows[i]).name)
            &&& rows[j].name == rows[i].name ==> !earlier(rows[j].id, rows[i].id)
        }
}

proof fn lemma_by_name(out: Seq<LobbyRoomSummaryModel>)
    requires
        ranked::<LobbyRoomSummary>(out),
    ensures
        listed_by_name(out),
{
    assert forall|i: int, j: int| 0 <= i < j < out.len() implies {
        &&& !earlier((#[trigger] out[j]).name, (#[trigger] out[i]).name)
        &&& out[j].name == out[i].name ==> !earlier(out[j].id, out[i].id)
    } by {
        let a = LobbyRoomSummary::rank(out[j]);
        let b = LobbyRoomSummary::rank(out[i]);
        assert(!rank_less(a, b));
        texts_are_ordered_by_character(out[j].name, out[i].name);
        texts_are_ordered_by_character(out[j].id, out[i].id);
    }
}

/// The listing of rooms shows each public room in one row, as it is, no private
/// one, and all by name.
pub proof fn public_rooms_are_listed_by_name(
    s: StateModel,
    order: Seq<Seq<char>>,
    out: Seq<LobbyRoomSummaryModel>,
)
    requires
        lists_keys(order, s.spar_rooms),
        sorted_rows::<LobbyRoomSummary>(public_rooms(order, s), out),
    ensures
        forall|i: int| 0 <= i < out.len() ==> is_public_room(s, #[trigger] out[i]),
        forall|k: Seq<char>| #[trigger]
            s.spar_rooms.contains_key(k) && !s.spar_rooms[k].private ==> exists|i: int|
                0 <= i < out.len() && lists_room(s.spar_rooms[k], #[trigger] out[i]),
        (forall|k: Seq<char>| #[trigger]
            s.spar_rooms.contains_key(k) ==> s.spar_rooms[k].room_id == k) ==> forall|
            i: int,
            j: int,
        |
            0 <= i < j < out.len() ==> (#[trigger] out[i]).id != (#[trigger] out[j]).id,
        listed_by_name(out),
{
    let p = |k: Seq<char>| !s.spar_rooms[k].private;
    let f = |k: Seq<char>| room_summary(s.spar_rooms[k]);
    assert(public_rooms(order, s) == order.filter(p).map_values(f));
    lemma_listed::<LobbyRoomSummary>(order, p, f, out);
    lemma_by_name(out);
    assert forall|i: int| 0 <= i < out.len() implies is_public_room(s, #[trigger] out[i]) by {
        assert(row_of_key(order, p, f, out[i]));
        let k = choose|k: Seq<char>| #[trigger] order.contains(k) && p(k) && out[i] == f(k);
        assert(s.spar_rooms.contains_key(k) && lists_room(s.spar_rooms[k], out[i]));
    }
    assert forall|k: Seq<char>| #[trigger]
        s.spar_rooms.contains_key(k) && !s.spar_rooms[k].private implies exists|i: int|
        0 <= i < out.len() && lists_room(s.spar_rooms[k], #[trigger] out[i]) by {
        assert(order.contains(k) && p(k));
        let i = choose|i: int| 0 <= i < out.len() && out[i] == f(k);
        assert(lists_room(s.spar_rooms[k], out[i]));
    }
    if forall|k: Seq<char>| #[trigger]
        s.spar_rooms.contains_key(k) ==> s.spar_rooms[k].room_id == k {
        assert forall|i: int, j: int| 0 <= i < j < out.len() implies (#[trigger] out[i]).id != (
        #[trigger] out[j]).id by {
            assert(row_of_key(order, p, f, out[i]) && row_of_key(order, p, f, out[j]));
            let a = choose|k: Seq<char>| #[trigger] order.contains(k) && p(k) && out[i] == f(k);
            let b = choose|k: Seq<char>| #[trigger] order.contains(k) && p(k) && out[j] == f(k);
            assert(s.spar_rooms.contains_key(a) && s.spar_rooms.contains_key(b));
            assert forall|j: Seq<char>, k: Seq<char>|
                #[trigger] order.contains(j) && #[trigger] order.contains(k) && p(j) && p(k) && f(
                    j,
                ) == f(k) implies j == k by {
                assert(s.spar_rooms.contains_key(j) && s.spar_rooms.contains_key(k));
            }
            assert(out[i] != out[j]);
        }
    }
}

/// The listing of lobbies shows each public lobby, as it is, no private one, and
/// all by name.
pub proof fn public_lobbies_are_listed_by_name(
    s: StateModel,
    order: Seq<Seq<char>>,
    out: Seq<LobbyRoomSummaryModel>,
)
    requires
        lists_keys(order, s.koh_lobbies),
        sorted_rows::<LobbyRoomSummary>(public_lobbies(order, s), out),
    ensures
        forall|i: int| 0 <= i < out.len() ==> is_public_lobby(s, #[trigger] out[i]),
        forall|k: Seq<char>| #[trigger]
            s.koh_lobbies.contains_key(k) && !s.koh_lobbies[k].private ==> exists|i: int|
                0 <= i < out.len() && lists_lobby(s.koh_lobbies[k], #[trigger] out[i]),
        (forall|k: Seq<char>| #[trigger]
            s.koh_lobbies.contains_key(k) ==> s.koh_lobbies[k].id == k) ==> forall|i: int, j: int|
            0 <= i < j < out.len() ==> (#[trigger] out[i]).id != (#[trigger] out[j]).id,
        listed_by_name(out),
{
    let p = |k: Seq<char>| !s.koh_lobbies[k].private;
    let f = |k: Seq<char>| lobby_summary(s.koh_lobbies[k]);
    assert(public_lobbies(order, s) == order.filter(p).map_values(f));
    lemma_listed::<LobbyRoomSummary>(order, p, f, out);
    lemma_by_name(out);
    assert forall|k: Seq<char>| #[trigger] s.koh_lobbies.contains_key(k) && p(k) implies
        lists_lobby(s.koh_lobbies[k], f(k)) by {
        let l = s.koh_lobbies[k];
        lemma_seat(l.members, l.host_id, 0);
        if l.members.len() > 0 {
            match seat(l.members, l.host_id) {
                Some(i) => {
                    assert(l.members[i].player_id == l.host_id);
                },
                None => {
                    assert forall|i: int| 0 <= i < l.members.len() implies (
                    #[trigger] l.members[i]).player_id != l.host_id by {}
                },
            }
        }
    }
    assert forall|i: int| 0 <= i < out.len() implies is_public_lobby(s, #[trigger] out[i]) by {
        assert(row_of_key(order, p, f, out[i]));
        let k = choose|k: Seq<char>| #[trigger] order.contains(k) && p(k) && out[i] == f(k);
        assert(s.koh_lobbies.contains_key(k) && lists_lobby(s.koh_lobbies[k], out[i]));
    }
    assert forall|k: Seq<char>| #[trigger]
        s.koh_lobbies.contains_key(k) && !s.koh_lobbies[k].private implies exists|i: int|
        0 <= i < out.len() && lists_lobby(s.koh_lobbies[k], #[trigger] out[i]) by {
        assert(order.contains(k) && p(k));
        let i = choose|i: int| 0 <= i < out.len() && out[i] == f(k);
        assert(lists_lobby(s.koh_lobbies[k], out[i]));
    }
    if forall|k: Seq<char>| #[trigger] s.koh_lobbies.contains_key(k) ==> s.koh_lobbies[k].id == k {
        assert forall|i: int, j: int| 0 <= i < j < out.len() implies (#[trigger] out[i]).id != (
        #[trigger] out[j]).id by {
            assert(row_of_key(order, p, f, out[i]) && row_of_key(order, p, f, out[j]));
            let a = choose|k: Seq<char>| #[trigger] order.contains(k) && p(k) && out[i] == f(k);
            let b = choose|k: Seq<char>| #[trigger] order.contains(k) && p(k) && out[j] == f(k);
            assert(s.koh_lobbies.contains_key(a) && s.koh_lobbies.contains_key(b));
            assert forall|j: Seq<char>, k: Seq<char>|
                #[trigger] order.contains(j) && #[trigger] order.contains(k) && p(j) && p(k) && f(
                    j,
                ) == f(k) implies j == k by {
                assert(s.koh_lobbies.contains_key(j) && s.koh_lobbies.contains_key(k));
            }
            assert(out[i] != out[j]);
        }
    }
}

// Challenges

/// A challenge is from the one who sends it to someone else who is in the lobby,
/// and waits with a session of the challenger's, who is seen to be challenging.
/// What cannot be sent changes nothing.
pub proof fn a_challenge_is_as_it_was_sent(
    s: StateModel,
    player: ClaimsModel,
    req: ChallengeRequestModel,
    challenge_id: Seq<char>,
    session_id: Seq<char>,
    now: Timestamp,
)
    ensures
        ({
            let (after, res) = challenge_sent(s, player, req, challenge_id, session_id, now);
            let c = after.challenges[challenge_id];
            let e = after.queue[session_id];
            let addressed = req.stun_endpoint.contains(':');
            let target = s.lobby_presence[req.target_id];
            &&& res is Ok <==> addressed && req.target_id != player.sub
                && s.lobby_presence.contains_key(req.target_id)
            &&& !addressed ==> res->Err_0 == AppErrorModel::BadRequest("Invalid stun_endpoint"@)
            &&& addressed && req.target_id == player.sub ==> res->Err_0
                == AppErrorModel::BadRequest("Cannot challenge yourself"@)
            &&& addressed && req.target_id != player.sub && !s.lobby_presence.contains_key(
                req.target_id,
            ) ==> res->Err_0 == AppErrorModel::NotFound("Target player is not in the lobby"@)
            &&& res is Err ==> after == s
            &&& res matches Ok(answer) ==> {
                &&& answer.challenge_id == challenge_id
                &&& answer.challenger_session_id == session_id
                &&& answer.status == "pending"@
                &&& c.challenge_id == challenge_id && c.challenger_session_id == session_id
                &&& c.challenger_discord_id == player.sub
                &&& c.challenger_username == player.username
                &&& c.target_discord_id == target.player_id
                &&& c.target_username == target.username
                &&& c.format == req.format && c.stun_endpoint == req.stun_endpoint
                &&& c.app_version == req.app_version && c.rom_hash == req.rom_hash
                &&& c.created_at == now
                &&& new_for(
                    e,
                    session_id,
                    player.sub,
                    player.username,
                    req.stun_endpoint,
                    req.app_version,
                    req.rom_hash,
                    now,
                )
                &&& e.match_info is None
                &&& after == (StateModel {
                    challenges: s.challenges.insert(challenge_id, c),
                    queue: s.queue.insert(session_id, e),
                    player_sessions: s.player_sessions.insert(player.sub, session_id),
                    lobby_presence: s.lobby_presence.insert(
                        player.sub,
                        LobbyPresenceModel {
                            player_id: player.sub,
                            username: player.username,
                            status: "challenging"@,
                            last_seen: now,
                        },
                    ),
                    ..s
                })
            }
        }),
{
}

/// When a challenge cannot be accepted, and why: the endpoint has no port, the
/// challenge is gone or meant for someone else, the builds differ, or the
/// challenger has left or found another opponent. A challenge whose challenger is
/// gone is dropped; otherwise nothing changes.
pub proof fn accepting_is_refused_for_cause(
    s: StateModel,
    player: ClaimsModel,
    challenge_id: Seq<char>,
    req: AcceptChallengeRequestModel,
    session_id: Seq<char>,
    room_id: Seq<char>,
    now: Timestamp,
)
    ensures
        ({
            let (after, res) = challenge_accepted(
                s,
                player,
                challenge_id,
                req,
                session_id,
                room_id,
                now,
            );
            let c = s.challenges[challenge_id];
            let host = s.queue[c.challenger_session_id];
            let addressed = req.stun_endpoint.contains(':');
            let found = addressed && s.challenges.contains_key(challenge_id);
            let meant = found && c.target_discord_id == player.sub;
            let fits = meant && c.app_version == req.app_version && c.rom_hash == req.rom_hash;
            let held = fits && s.queue.contains_key(c.challenger_session_id);
            let waits = held && !host.cancelled && host.match_info is None;
            &&& res is Ok <==> waits
            &&& !addressed ==> res->Err_0 == AppErrorModel::BadRequest("Invalid stun_endpoint"@)
            &&& addressed && !found ==> res->Err_0 == AppErrorModel::NotFound(
                "Challenge not found or expired"@,
            )
            &&& found && !meant ==> res->Err_0 == AppErrorModel::Unauthorized(
                "Challenge does not belong to you"@,
            )
            &&& meant && !fits ==> res->Err_0 == AppErrorModel::BadRequest(
                "Challenge requires matching app version and ROM hash"@,
            )
            &&& fits && !held ==> res->Err_0 == AppErrorModel::NotFound(
                "Challenger session expired"@,
            )
            &&& held && !waits ==> res->Err_0 == AppErrorModel::NotFound(
                "Challenger is no longer available"@,
            )
            &&& res is Err && !fits ==> after == s
            &&& res is Err && fits ==> after == (StateModel {
                challenges: s.challenges.remove(challenge_id),
                ..s
            })
            &&& res is Ok ==> forall|k: Seq<char>|
                {
                    let o = s.challenges[k];
                    &&& #[trigger] after.challenges.contains_key(k) <==> {
                        &&& s.challenges.contains_key(k) && k != challenge_id
                        &&& o.challenger_discord_id != player.sub
                        &&& o.challenger_discord_id != c.challenger_discord_id
                        &&& o.target_discord_id != player.sub
                        &&& o.target_discord_id != c.challenger_discord_id
                    }
                    &&& after.challenges.contains_key(k) ==> after.challenges[k] == o
                }
        }),
{
}

/// Either side may drop a challenge, and nobody else. The challenger's session is
/// then called off and no longer theirs to hold; nothing else changes.
pub proof fn either_side_may_drop_a_challenge(
    s: StateModel,
    player: Seq<char>,
    challenge_id: Seq<char>,
)
    ensures
        ({
            let (after, res) = challenge_declined(s, player, challenge_id);
            let c = s.challenges[challenge_id];
            let sid = c.challenger_session_id;
            let found = s.challenges.contains_key(challenge_id);
            let own = c.target_discord_id == player || c.challenger_discord_id == player;
            &&& res is Ok <==> found && own
            &&& !found ==> res->Err_0 == AppErrorModel::NotFound("Challenge not found or expired"@)
            &&& found && !own ==> res->Err_0 == AppErrorModel::Unauthorized(
                "Challenge does not belong to you"@,
            )
            &&& res is Err ==> after == s
            &&& res is Ok ==> {
                &&& after.challenges == s.challenges.remove(challenge_id)
                &&& after.queue.dom() == s.queue.dom()
                &&& forall|k: Seq<char>| #[trigger]
                    s.queue.contains_key(k) ==> after.queue[k] == if k == sid {
                        QueueEntryModel { cancelled: true, ..s.queue[k] }
                    } else {
                        s.queue[k]
                    }
                &&& forall|p: Seq<char>| #[trigger]
                    after.player_sessions.contains_key(p) <==> s.player_sessions.contains_key(p)
                        && !(p == c.challenger_discord_id && s.player_sessions[p] == sid)
                &&& forall|p: Seq<char>| #[trigger]
                    after.player_sessions.contains_key(p) ==> after.player_sessions[p]
                        == s.player_sessions[p]
                &&& after == (StateModel {
                    challenges: after.challenges,
                    queue: after.queue,
                    player_sessions: after.player_sessions,
                    ..s
                })
            }
        }),
{
    let (after, res) = challenge_declined(s, player, challenge_id);
    if res is Ok {
        assert(after.queue.dom() =~= s.queue.dom());
    }
}

/// Whether a row of a player's list is of a challenge: incoming for the one who is
/// challenged, outgoing for the other.
pub open spec fn lists_challenge(
    c: ChallengeModel,
    player: Seq<char>,
    row: ChallengeSummaryModel,
) -> bool {
    &&& row.challenge_id == c.challenge_id
    &&& c.target_discord_id == player ==> row.direction == "incoming"@
    &&& c.target_discord_id != player ==> row.direction == "outgoing"@
    &&& row.challenger_id == c.challenger_discord_id
    &&& row.challenger_username == c.challenger_username
    &&& row.target_id == c.target_discord_id && row.target_username == c.target_username
    &&& row.format == c.format && row.created_at == rfc3339_at(c.created_at)
}

/// Whether a row of a player's list is of one of the player's challenges.
pub open spec fn is_own_challenge(
    s: StateModel,
    player: Seq<char>,
    row: ChallengeSummaryModel,
) -> bool {
    exists|k: Seq<char>|
        {
            &&& #[trigger] s.challenges.contains_key(k)
            &&& s.challenges[k].target_discord_id == player
                || s.challenges[k].challenger_discord_id == player
            &&& lists_challenge(s.challenges[k], player, row)
        }
}

/// A player's list shows each challenge that the player has sent or been sent, no
/// other, and the oldest first.
pub proof fn players_see_their_own_challenges(
    s: StateModel,
    player: Seq<char>,
    res: ChallengeListResponseModel,
)
    requires
        lists_challenges(s, player, res),
    ensures
        forall|i: int|
            0 <= i < res.challenges.len() ==> is_own_challenge(
                s,
                player,
                #[trigger] res.challenges[i],
            ),
        forall|k: Seq<char>| #[trigger]
            s.challenges.contains_key(k) && (s.challenges[k].target_discord_id == player
                || s.challenges[k].challenger_discord_id == player) ==> exists|i: int|
                0 <= i < res.challenges.len() && lists_challenge(
                    s.challenges[k],
                    player,
                    #[trigger] res.challenges[i],
                ),
        forall|i: int, j: int|
            0 <= i < j < res.challenges.len() ==> {
                let (a, b) = (#[trigger] res.challenges[i], #[trigger] res.challenges[j]);
                &&& !earlier(b.created_at, a.created_at)
                &&& b.created_at == a.created_at ==> !earlier(b.challenge_id, a.challenge_id)
            },
        (forall|k: Seq<char>| #[trigger]
            s.challenges.contains_key(k) ==> s.challenges[k].challenge_id == k)
            ==> res.challenges.no_duplicates(),
{
    let order = choose|order: Seq<Seq<char>>|
        lists_keys(order, s.challenges) && sorted_rows::<ChallengeSummary>(
            #[trigger] challenges_of(order, s, player),
            res.challenges,
        );
    let out = res.challenges;
    let p = |k: Seq<char>|
        s.challenges[k].target_discord_id == player || s.challenges[k].challenger_discord_id
            == player;
    let f = |k: Seq<char>|
        challenge_shown(
            s.challenges[k],
            if s.challenges[k].target_discord_id == player {
                "incoming"@
            } else {
                "outgoing"@
            },
        );
    assert(challenges_of(order, s, player) == order.filter(p).map_values(f));
    lemma_listed::<ChallengeSummary>(order, p, f, out);
    assert forall|i: int| 0 <= i < res.challenges.len() implies is_own_challenge(
        s,
        player,
        #[trigger] res.challenges[i],
    ) by {
        assert(row_of_key(order, p, f, out[i]));
        let k = choose|k: Seq<char>| #[trigger] order.contains(k) && p(k) && out[i] == f(k);
        assert(s.challenges.contains_key(k));
    }
    assert forall|k: Seq<char>| #[trigger]
        s.challenges.contains_key(k) && (s.challenges[k].target_discord_id == player
            || s.challenges[k].challenger_discord_id == player) implies exists|i: int|
        0 <= i < res.challenges.len() && lists_challenge(
            s.challenges[k],
            player,
            #[trigger] res.challenges[i],
        ) by {
        assert(order.contains(k) && p(k));
        let i = choose|i: int| 0 <= i < out.len() && out[i] == f(k);
        assert(lists_challenge(s.challenges[k], player, out[i]));
    }
    assert forall|i: int, j: int| 0 <= i < j < res.challenges.len() implies {
        let (a, b) = (#[trigger] res.challenges[i], #[trigger] res.challenges[j]);
        &&& !earlier(b.created_at, a.created_at)
        &&& b.created_at == a.created_at ==> !earlier(b.challenge_id, a.challenge_id)
    } by {
        let (a, b) = (out[i], out[j]);
        assert(!rank_less(ChallengeSummary::rank(b), ChallengeSummary::rank(a)));
        texts_are_ordered_by_character(b.created_at, a.created_at);
        texts_are_ordered_by_character(b.challenge_id, a.challenge_id);
    }
    if forall|k: Seq<char>| #[trigger]
        s.challenges.contains_key(k) ==> s.challenges[k].challenge_id == k {
        assert forall|j: Seq<char>, k: Seq<char>|
            #[trigger] order.contains(j) && #[trigger] order.contains(k) && p(j) && p(k) && f(j)
                == f(k) implies j == k by {
            assert(s.challenges.contains_key(j) && s.challenges.contains_key(k));
        }
    }
}

// The general lobby

/// A heartbeat notes a player under their id with name, status and time; whoever
/// looks into the lobby is online, and a stranger leaves no trace.
pub proof fn heartbeats_note_the_player(
    s: StateModel,
    player: ClaimsModel,
    status: Seq<char>,
    now: Timestamp,
)
    ensures
        touched(s, player, status, now) == (StateModel {
            lobby_presence: s.lobby_presence.insert(
                player.sub,
                LobbyPresenceModel {
                    player_id: player.sub,
                    username: player.username,
                    status,
                    last_seen: now,
                },
            ),
            ..s
        }),
        looked_in(s, None, now) == s,
        looked_in(s, Some(player), now) == (StateModel {
            lobby_presence: s.lobby_presence.insert(
                player.sub,
                LobbyPresenceModel {
                    player_id: player.sub,
                    username: player.username,
                    status: "online"@,
                    last_seen: now,
                },
            ),
            ..s
        }),
{
}

/// A chat message is kept, cleaned, under the name of the one who wrote it, who is
/// then seen to be chatting; what is refused leaves no trace.
pub proof fn messages_are_kept_under_their_author(
    s: StateModel,
    player: ClaimsModel,
    req: LobbyChatRequestModel,
    message_id: Seq<char>,
    now: Timestamp,
)
    ensures
        ({
            let (after, res) = chatted(s, player, req, message_id, now);
            &&& res is Ok <==> clean_chat(req.message) is Ok
            &&& res is Err ==> after == s && res->Err_0 == clean_chat(req.message)->Err_0
            &&& res is Ok ==> after == (StateModel {
                lobby_chat: s.lobby_chat.insert(
                    message_id,
                    LobbyChatEntryModel {
                        message_id,
                        player_id: player.sub,
                        username: player.username,
                        message: clean_chat(req.message)->Ok_0,
                        created_at: now,
                    },
                ),
                lobby_presence: s.lobby_presence.insert(
                    player.sub,
                    LobbyPresenceModel {
                        player_id: player.sub,
                        username: player.username,
                        status: "chatting"@,
                        last_seen: now,
                    },
                ),
                ..s
            })
        }),
{
}

/// Whether a player who was last heard of at some time is shown: for a minute and
/// a half, in whole seconds.
pub open spec fn still_here(p: LobbyPresenceModel, now: Timestamp) -> bool {
    now.nanos - p.last_seen.nanos < 91_000_000_000
}

/// Whether a row of the lobby is of a player, with the rating where it is known.
pub open spec fn lists_player(
    s: StateModel,
    p: LobbyPresenceModel,
    row: LobbyUserModel,
) -> bool {
    &&& row.player_id == p.player_id && row.username == p.username && row.status == p.status
    &&& s.ratings.contains_key(p.player_id) ==> row.rating == Some(
        s.ratings[p.player_id].rating,
    )
    &&& !s.ratings.contains_key(p.player_id) ==> row.rating is None
}

/// Whether a row of the lobby is of someone who is here.
pub open spec fn is_here(s: StateModel, now: Timestamp, row: LobbyUserModel) -> bool {
    exists|k: Seq<char>|
        {
            &&& #[trigger] s.lobby_presence.contains_key(k)
            &&& still_here(s.lobby_presence[k], now)
            &&& lists_player(s, s.lobby_presence[k], row)
        }
}

/// The lobby shows the players who were heard of in the last minute and a half, by
/// name, and nobody else.
pub proof fn the_lobby_shows_who_is_here(
    s: StateModel,
    now: Timestamp,
    res: GeneralLobbyResponseModel,
)
    requires
        lobby_snapshot(s, now, res),
    ensures
        res.status == "General lobby ready"@,
        forall|i: int| 0 <= i < res.users.len() ==> is_here(s, now, #[trigger] res.users[i]),
        forall|k: Seq<char>| #[trigger]
            s.lobby_presence.contains_key(k) && still_here(s.lobby_presence[k], now)
                ==> exists|i: int|
                0 <= i < res.users.len() && lists_player(
                    s,
                    s.lobby_presence[k],
                    #[trigger] res.users[i],
                ),
        forall|i: int, j: int|
            0 <= i < j < res.users.len() ==> {
                let (a, b) = (#[trigger] res.users[i], #[trigger] res.users[j]);
                &&& !earlier(b.username, a.username)
                &&& b.username == a.username ==> !earlier(b.player_id, a.player_id)
            },
        (forall|k: Seq<char>| #[trigger]
            s.lobby_presence.contains_key(k) ==> s.lobby_presence[k].player_id == k)
            ==> res.users.no_duplicates(),
{
    let (order, chat_order, sorted_chat) = choose|
        users_order: Seq<Seq<char>>,
        chat_order: Seq<Seq<char>>,
        sorted_chat: Seq<LobbyChatEntryModel>,
    | #[trigger]
        shows_lobby(s, now, users_order, chat_order, sorted_chat, res);
    let out = res.users;
    let p = |k: Seq<char>| present(s.lobby_presence[k], now);
    let f = |k: Seq<char>| user_shown(s, s.lobby_presence[k]);
    assert(users_present(order, s, now) == order.filter(p).map_values(f));
    lemma_listed::<LobbyUser>(order, p, f, out);
    assert forall|i: int| 0 <= i < res.users.len() implies is_here(
        s,
        now,
        #[trigger] res.users[i],
    ) by {
        assert(row_of_key(order, p, f, out[i]));
        let k = choose|k: Seq<char>| #[trigger] order.contains(k) && p(k) && out[i] == f(k);
        assert(s.lobby_presence.contains_key(k));
    }
    assert forall|k: Seq<char>| #[trigger]
        s.lobby_presence.contains_key(k) && still_here(s.lobby_presence[k], now) implies exists|
        i: int,
    |
        0 <= i < res.users.len() && lists_player(
            s,
            s.lobby_presence[k],
            #[trigger] res.users[i],
        ) by {
        assert(order.contains(k) && p(k));
        let i = choose|i: int| 0 <= i < out.len() && out[i] == f(k);
        assert(lists_player(s, s.lobby_presence[k], out[i]));
    }
    assert forall|i: int, j: int| 0 <= i < j < res.users.len() implies {
        let (a, b) = (#[trigger] res.users[i], #[trigger] res.users[j]);
        &&& !earlier(b.username, a.username)
        &&& b.username == a.username ==> !earlier(b.player_id, a.player_id)
    } by {
        let (a, b) = (out[i], out[j]);
        assert(!rank_less(LobbyUser::rank(b), LobbyUser::rank(a)));
        texts_are_ordered_by_character(b.username, a.username);
        texts_are_ordered_by_character(b.player_id, a.player_id);
    }
    if forall|k: Seq<char>| #[trigger]
        s.lobby_presence.contains_key(k) ==> s.lobby_presence[k].player_id == k {
        assert forall|j: Seq<char>, k: Seq<char>|
            #[trigger] order.contains(j) && #[trigger] order.contains(k) && p(j) && p(k) && f(j)
                == f(k) implies j == k by {
            assert(s.lobby_presence.contains_key(j) && s.lobby_presence.contains_key(k));
        }
    }
}

/// Whether the lines of the chat are those of some messages that are kept, each
/// with its author's name, its text and its time, and these messages are the
/// latest: at most fifty, in the order of time, and all of them where fewer than
/// fifty are shown.
pub open spec fn chat_window(
    s: StateModel,
    messages: Seq<LobbyChatEntryModel>,
    lines: Seq<LobbyChatMessageModel>,
) -> bool {
    &&& messages.len() == lines.len() && lines.len() <= 50
    &&& forall|i: int|
        #![trigger messages[i]]
        #![trigger lines[i]]
        0 <= i < lines.len() ==> {
            &&& lines[i].username == messages[i].username
            &&& lines[i].message == messages[i].message
            &&& lines[i].timestamp == rfc3339_at(messages[i].created_at)
        }
    &&& forall|i: int|
        0 <= i < messages.len() ==> s.lobby_chat.contains_value(#[trigger] messages[i])
    &&& forall|i: int, j: int|
        0 <= i < j < messages.len() ==> {
            let (a, b) = (#[trigger] messages[i], #[trigger] messages[j]);
            &&& a.created_at.nanos <= b.created_at.nanos
            &&& a.created_at == b.created_at ==> !earlier(b.player_id, a.player_id)
            &&& a.created_at == b.created_at && a.player_id == b.player_id ==> !earlier(
                b.message_id,
                a.message_id,
            )
        }
    &&& forall|k: Seq<char>| #[trigger]
        s.lobby_chat.contains_key(k) && !messages.contains(s.lobby_chat[k]) ==> messages.len()
            == 50 && forall|i: int|
            0 <= i < messages.len() ==> s.lobby_chat[k].created_at.nanos <= (
            #[trigger] messages[i]).created_at.nanos
}

/// The lobby shows the latest messages in the order in which they were written.
pub proof fn the_lobby_shows_the_latest_messages(
    s: StateModel,
    now: Timestamp,
    res: GeneralLobbyResponseModel,
)
    requires
        lobby_snapshot(s, now, res),
    ensures
        exists|messages: Seq<LobbyChatEntryModel>| #[trigger] chat_window(s, messages, res.chat),
{
    let (users_order, order, sorted) = choose|
        users_order: Seq<Seq<char>>,
        chat_order: Seq<Seq<char>>,
        sorted_chat: Seq<LobbyChatEntryModel>,
    | #[trigger]
        shows_lobby(s, now, users_order, chat_order, sorted_chat, res);
    let p = |k: Seq<char>| true;
    let f = |k: Seq<char>| s.lobby_chat[k];
    lemma_filter(order, p);
    assert(order.filter(p) == order);
    assert(chat_kept(order, s) == order.filter(p).map_values(f));
    lemma_listed::<LobbyChatEntry>(order, p, f, sorted);
    let from = if sorted.len() > 50 {
        sorted.len() - 50
    } else {
        0
    };
    let messages = sorted.skip(from);
    assert(res.chat == latest_lines(sorted));
    assert(res.chat == messages.map_values(|e: LobbyChatEntryModel| chat_line(e)));
    assert forall|i: int| 0 <= i < messages.len() implies s.lobby_chat.contains_value(
        #[trigger] messages[i],
    ) by {
        assert(row_of_key(order, p, f, sorted[i + from]));
        let k = choose|k: Seq<char>|
            #[trigger] order.contains(k) && p(k) && sorted[i + from] == f(k);
        assert(s.lobby_chat.contains_key(k));
    }
    assert forall|i: int, j: int| 0 <= i < j < sorted.len() implies (
    #[trigger] sorted[i]).created_at.nanos <= (#[trigger] sorted[j]).created_at.nanos by {
        assert(!rank_less(LobbyChatEntry::rank(sorted[j]), LobbyChatEntry::rank(sorted[i])));
    }
    assert forall|i: int, j: int| 0 <= i < j < messages.len() implies {
        let (a, b) = (#[trigger] messages[i], #[trigger] messages[j]);
        &&& a.created_at.nanos <= b.created_at.nanos
        &&& a.created_at == b.created_at ==> !earlier(b.player_id, a.player_id)
        &&& a.created_at == b.created_at && a.player_id == b.player_id ==> !earlier(
            b.message_id,
            a.message_id,
        )
    } by {
        let (a, b) = (sorted[i + from], sorted[j + from]);
        assert(!rank_less(LobbyChatEntry::rank(b), LobbyChatEntry::rank(a)));
        texts_are_ordered_by_character(b.player_id, a.player_id);
        texts_are_ordered_by_character(b.message_id, a.message_id);
    }
    assert forall|k: Seq<char>| #[trigger]
        s.lobby_chat.contains_key(k) && !messages.contains(s.lobby_chat[k]) implies messages.len()
        == 50 && forall|i: int|
        0 <= i < messages.len() ==> s.lobby_chat[k].created_at.nanos <= (
        #[trigger] messages[i]).created_at.nanos by {
        assert(order.contains(k) && p(k));
        let n = choose|n: int| 0 <= n < sorted.len() && sorted[n] == f(k);
        if n >= from {
            assert(messages[n - from] == f(k));
        }
        assert forall|i: int| 0 <= i < messages.len() implies s.lobby_chat[k].created_at.nanos <= (
        #[trigger] messages[i]).created_at.nanos by {
            assert(sorted[n].created_at.nanos <= sorted[i + from].created_at.nanos);
        }
    }
    assert(chat_window(s, messages, res.chat));
}

/// What the end of a text without its trailing slashes looks like.
proof fn lemma_slashes(text: Seq<char>)
    ensures
        ({
            let p = |c: char| c == '/';
            let base = strip_back(text, p);
            &&& base.len() <= text.len()
            &&& base.len() > 0 ==> base.last() != '/'
            &&& text.take(base.len() as int) == base
            &&& forall|i: int| base.len() <= i < text.len() ==> text[i] == '/'
        }),
    decreases text.len(),
{
    let p = |c: char| c == '/';
    if text.len() > 0 && p(text.last()) {
        lemma_slashes(text.drop_last());
        let base = strip_back(text.drop_last(), p);
        assert(text.take(base.len() as int) == text.drop_last().take(base.len() as int));
        assert forall|i: int| base.len() <= i < text.len() implies text[i] == '/' by {
            if i < text.len() - 1 {
                assert(text.drop_last()[i] == '/');
            }
        }
    } else {
        assert(text.take(text.len() as int) == text);
    }
}

/// Whether a rating is asked for: the player is still here, and either no rating
/// is known or it was fetched more than five minutes ago, in whole seconds.
pub open spec fn asks_rating(s: StateModel, p: LobbyPresenceModel, now: Timestamp) -> bool {
    &&& still_here(p, now)
    &&& s.ratings.contains_key(p.player_id) ==> now.nanos
        - s.ratings[p.player_id].fetched_at.nanos >= 301_000_000_000
}

/// Whether a fetch asks the stats service for a player's rating: the address is
/// that of the service, without the slashes at its end, and the player's page.
pub open spec fn asks_for(
    stats_url: Seq<char>,
    player: Seq<char>,
    fetch: (Seq<char>, Seq<char>),
) -> bool {
    &&& fetch.0 == player
    &&& exists|n: int|
        {
            &&& 0 <= n <= stats_url.len()
            &&& fetch.1 == #[trigger] stats_url.take(n) + "/player/"@ + player
            &&& n > 0 ==> stats_url[n - 1] != '/'
            &&& forall|i: int| n <= i < stats_url.len() ==> stats_url[i] == '/'
        }
}

/// Whether a fetch is for someone whose rating is asked for.
pub open spec fn is_asked_for(
    s: StateModel,
    now: Timestamp,
    stats_url: Seq<char>,
    fetch: (Seq<char>, Seq<char>),
) -> bool {
    exists|k: Seq<char>|
        {
            &&& #[trigger] s.lobby_presence.contains_key(k)
            &&& asks_rating(s, s.lobby_presence[k], now)
            &&& asks_for(stats_url, s.lobby_presence[k].player_id, fetch)
        }
}

/// Ratings are asked for of everyone who is here and whose rating is not known or
/// old, and of nobody where there is no stats service.
pub proof fn ratings_are_asked_for_when_old(
    s: StateModel,
    now: Timestamp,
    fetches: Seq<(Seq<char>, Seq<char>)>,
)
    requires
        fetches_wanted(s, now, fetches),
    ensures
        s.config.stats_service_url is None ==> fetches.len() == 0,
        s.config.stats_service_url matches Some(url) ==> {
            &&& forall|i: int|
                0 <= i < fetches.len() ==> is_asked_for(s, now, url, #[trigger] fetches[i])
            &&& forall|k: Seq<char>| #[trigger]
                s.lobby_presence.contains_key(k) && asks_rating(s, s.lobby_presence[k], now)
                    ==> exists|i: int|
                    0 <= i < fetches.len() && asks_for(
                        url,
                        s.lobby_presence[k].player_id,
                        #[trigger] fetches[i],
                    )
        },
{
    let order = choose|order: Seq<Seq<char>>|
        lists_keys(order, s.lobby_presence) && fetches == #[trigger] rating_fetches(order, s, now);
    if s.config.stats_service_url is Some {
        let url = s.config.stats_service_url->0;
        lemma_slashes(url);
        let n = strip_back(url, |c: char| c == '/').len() as int;
        let p = |k: Seq<char>| rating_wanted(s, s.lobby_presence[k], now);
        lemma_filter(order, p);
        let kept = order.filter(p);
        assert forall|i: int| 0 <= i < fetches.len() implies asks_for(
            url,
            s.lobby_presence[kept[i]].player_id,
            #[trigger] fetches[i],
        ) && fetches[i].0 == s.lobby_presence[kept[i]].player_id by {
            let player = s.lobby_presence[kept[i]].player_id;
            assert(fetches[i].1 == url.take(n) + "/player/"@ + player);
        }
        assert(fetches.len() == kept.len());
        assert forall|i: int| 0 <= i < fetches.len() implies is_asked_for(
            s,
            now,
            url,
            #[trigger] fetches[i],
        ) by {
            let k = kept[i];
            assert(kept.contains(k));
            assert(s.lobby_presence.contains_key(k) && p(k));
        }
        assert forall|k: Seq<char>| #[trigger]
            s.lobby_presence.contains_key(k) && asks_rating(s, s.lobby_presence[k], now) implies
            exists|i: int|
            0 <= i < fetches.len() && asks_for(
                url,
                s.lobby_presence[k].player_id,
                #[trigger] fetches[i],
            ) by {
            assert(order.contains(k) && p(k));
            assert(kept.contains(k));
            let i = choose|i: int| 0 <= i < kept.len() && kept[i] == k;
            assert(asks_for(url, s.lobby_presence[k].player_id, fetches[i]));
        }
    }
}

} // verus!
