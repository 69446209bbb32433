//! What holds of matches: who is paired with whom, what the two are told, when a
//! match is off, and when a result counts.

use vstd::prelude::*;
use crate::challenges::challenge_accepted;
use crate::error::AppErrorModel;
use crate::lobby_requests::{lobby_readied, unranked_room};
use crate::models::{
    AcceptChallengeRequestModel, ClaimsModel, JoinRoomRequestModel, LfgRequestModel,
    MatchResultRequestModel, MatchStatus, MatchStatusResponseModel, PeerRelayResponseModel,
    PlayerRole, QueueEntryModel, TurnReadyRequestModel,
};
use crate::order_laws::{
    challenge_in_order, in_order, lemma_first_in, new_room_id, new_session_id, no_new_sessions,
    partners_are_unique, rooms_paired, session_of_match, turn_ready_keeps_order,
};
use crate::queue::{
    lfg, paired, peer_address, queue_cancelled, relay_reported, requeued, session_added,
    session_refusal, session_status,
};
use crate::results::{
    after_attempt, confirmed, replied, reported, result_id, seated, verdict, Attempt, ResultReply,
};
use crate::rooms::room_joined;
use crate::sessions::{
    cancelled, eligible, endpoint, first_opponent, first_partner, in_room, partner,
    room_credentials, waiting, Sessions,
};
use crate::state::StateModel;
use crate::table::lists_keys;
use crate::text::{decimal, lemma_decimal_digits, lemma_decimal_injective};
use crate::time::Timestamp;

verus! {

// Who is paired with whom

/// Sessions in one room have the same version and the same game image.
pub open spec fn builds_match(queue: Sessions) -> bool {
    forall|j: Seq<char>, k: Seq<char>|
        #[trigger] queue.contains_key(j) && #[trigger] queue.contains_key(k)
            && queue[j].match_info is Some && in_room(queue[k], queue[j].match_info->0.room_id)
            ==> queue[j].app_version == queue[k].app_version && queue[j].rom_hash
            == queue[k].rom_hash
}

/// What adds no session pairs nobody with another build.
pub proof fn nothing_new_pairs_nobody(before: Sessions, after: Sessions)
    requires
        builds_match(before),
        no_new_sessions(before, after),
    ensures
        builds_match(after),
{
    assert forall|j: Seq<char>, k: Seq<char>|
        #[trigger] after.contains_key(j) && #[trigger] after.contains_key(k)
            && after[j].match_info is Some && in_room(
            after[k],
            after[j].match_info->0.room_id,
        ) implies after[j].app_version == after[k].app_version && after[j].rom_hash
        == after[k].rom_hash by {
        assert(before.contains_key(j) && before.contains_key(k));
    }
}

/// A new session that waits pairs nobody with another build.
pub proof fn waiting_pairs_nobody(s: StateModel, e: QueueEntryModel)
    requires
        builds_match(s.queue),
        e.match_info is None,
    ensures
        builds_match(session_added(s, e).queue),
{
}

/// Pairing two players with the same build in a new room.
proof fn lemma_pairing_matches_builds(
    s: StateModel,
    host_id: Seq<char>,
    host_username: Seq<char>,
    player: ClaimsModel,
    stun_endpoint: Seq<char>,
    session_id: Seq<char>,
    room_id: Seq<char>,
    now: Timestamp,
)
    requires
        builds_match(s.queue),
        s.queue.contains_key(host_id),
        !s.queue.contains_key(session_id),
        new_room_id(s, room_id),
    ensures
        builds_match(
            paired(
                s,
                host_id,
                host_username,
                player,
                stun_endpoint,
                s.queue[host_id].app_version,
                s.queue[host_id].rom_hash,
                session_id,
                room_id,
                now,
            ).queue,
        ),
{
    let after = paired(
        s,
        host_id,
        host_username,
        player,
        stun_endpoint,
        s.queue[host_id].app_version,
        s.queue[host_id].rom_hash,
        session_id,
        room_id,
        now,
    ).queue;
    assert forall|j: Seq<char>, k: Seq<char>|
        #[trigger] after.contains_key(j) && #[trigger] after.contains_key(k)
            && after[j].match_info is Some && in_room(
            after[k],
            after[j].match_info->0.room_id,
        ) implies after[j].app_version == after[k].app_version && after[j].rom_hash
        == after[k].rom_hash by {
        assert(j == host_id || j == session_id || (s.queue.contains_key(j) && after[j]
            == s.queue[j]));
        assert(k == host_id || k == session_id || (s.queue.contains_key(k) && after[k]
            == s.queue[k]));
    }
}

/// A request for an opponent pairs only players with the same version and the
/// same game image.
pub proof fn lfg_pairs_equal_builds(
    s: StateModel,
    player: ClaimsModel,
    req: LfgRequestModel,
    session_id: Seq<char>,
    room_id: Seq<char>,
    now: Timestamp,
    order: Seq<Seq<char>>,
)
    requires
        builds_match(s.queue),
        new_session_id(s, session_id),
        new_room_id(s, room_id),
    ensures
        builds_match(lfg(s, player, req, session_id, room_id, now, order).0.queue),
{
    let r = requeued(s, player.sub);
    assert(no_new_sessions(s.queue, r.queue));
    nothing_new_pairs_nobody(s.queue, r.queue);
    let p = |e: QueueEntryModel| eligible(e, player.sub, req.app_version, req.rom_hash);
    lemma_first_in(order, r.queue, p);
    if let Some(host_id) = first_opponent(
        order,
        r.queue,
        player.sub,
        req.app_version,
        req.rom_hash,
    ) {
        assert(p(r.queue[host_id]));
        lemma_pairing_matches_builds(
            r,
            host_id,
            r.queue[host_id].username,
            player,
            req.stun_endpoint,
            session_id,
            room_id,
            now,
        );
    }
}

/// Accepting a challenge pairs only players with the same version and the same
/// game image.
pub proof fn accepting_pairs_equal_builds(
    s: StateModel,
    player: ClaimsModel,
    challenge_id: Seq<char>,
    req: AcceptChallengeRequestModel,
    session_id: Seq<char>,
    room_id: Seq<char>,
    now: Timestamp,
)
    requires
        in_order(s),
        builds_match(s.queue),
        new_session_id(s, session_id),
        new_room_id(s, room_id),
    ensures
        builds_match(
            challenge_accepted(s, player, challenge_id, req, session_id, room_id, now).0.queue,
        ),
{
    let (after, res) = challenge_accepted(
        s,
        player,
        challenge_id,
        req,
        session_id,
        room_id,
        now,
    );
    if res is Ok {
        let c = s.challenges[challenge_id];
        assert(challenge_in_order(s, challenge_id));
        let used = StateModel { challenges: s.challenges.remove(challenge_id), ..s };
        lemma_pairing_matches_builds(
            used,
            c.challenger_session_id,
            c.challenger_username,
            player,
            req.stun_endpoint,
            session_id,
            room_id,
            now,
        );
        let met = paired(
            used,
            c.challenger_session_id,
            c.challenger_username,
            player,
            req.stun_endpoint,
            req.app_version,
            req.rom_hash,
            session_id,
            room_id,
            now,
        );
        assert(no_new_sessions(met.queue, after.queue));
        nothing_new_pairs_nobody(met.queue, after.queue);
    }
}

/// Joining a spar room pairs only players with the same version and the same game
/// image.
pub proof fn joining_a_room_pairs_equal_builds(
    s: StateModel,
    player: ClaimsModel,
    room_id: Seq<char>,
    req: JoinRoomRequestModel,
    session_id: Seq<char>,
    match_room_id: Seq<char>,
    now: Timestamp,
)
    requires
        builds_match(s.queue),
        new_session_id(s, session_id),
        new_room_id(s, match_room_id),
    ensures
        builds_match(
            room_joined(s, player, room_id, req, session_id, match_room_id, now).0.queue,
        ),
{
    let (after, res) = room_joined(s, player, room_id, req, session_id, match_room_id, now);
    if res is Ok {
        let room = s.spar_rooms[room_id];
        let used = StateModel { spar_rooms: s.spar_rooms.remove(room_id), ..s };
        lemma_pairing_matches_builds(
            used,
            s.player_sessions[room.creator_discord_id],
            room.creator_username,
            player,
            req.stun_endpoint,
            session_id,
            match_room_id,
            now,
        );
    }
}

/// A lobby pairs only players with the same version and the same game image: those
/// of the lobby.
pub proof fn lobbies_pair_equal_builds(
    s: StateModel,
    player: Seq<char>,
    lobby_id: Seq<char>,
    room_id: Seq<char>,
    host_session: Seq<char>,
    join_session: Seq<char>,
    now: Timestamp,
)
    requires
        in_order(s),
        builds_match(s.queue),
        new_session_id(s, host_session),
        new_session_id(s, join_session),
        new_room_id(s, room_id),
    ensures
        builds_match(
            lobby_readied(
                s,
                player,
                lobby_id,
                room_id,
                host_session,
                join_session,
                now,
            ).0.queue,
        ),
{
    let after = lobby_readied(
        s,
        player,
        lobby_id,
        room_id,
        host_session,
        join_session,
        now,
    ).0;
    assert forall|k: Seq<char>| #[trigger] after.queue.contains_key(k) implies k == host_session
        || k == join_session || (s.queue.contains_key(k) && after.queue[k] == s.queue[k]) by {}
    assert forall|j: Seq<char>, k: Seq<char>|
        #[trigger] after.queue.contains_key(j) && #[trigger] after.queue.contains_key(k)
            && after.queue[j].match_info is Some && in_room(
            after.queue[k],
            after.queue[j].match_info->0.room_id,
        ) implies after.queue[j].app_version == after.queue[k].app_version
        && after.queue[j].rom_hash == after.queue[k].rom_hash by {}
}

/// A player meets someone else, who waited; a session that is matched or called
/// off is never taken.
pub proof fn only_waiting_sessions_are_taken(
    s: StateModel,
    player: ClaimsModel,
    req: LfgRequestModel,
    session_id: Seq<char>,
    room_id: Seq<char>,
    now: Timestamp,
    order: Seq<Seq<char>>,
    k: Seq<char>,
)
    requires
        new_session_id(s, session_id),
        s.queue.contains_key(k),
        !waiting(s.queue[k]) || s.queue[k].discord_id == player.sub,
    ensures
        ({
            let after = lfg(s, player, req, session_id, room_id, now, order).0;
            after.queue.contains_key(k) ==> after.queue[k].match_info == s.queue[k].match_info
        }),
{
    let r = requeued(s, player.sub);
    let p = |e: QueueEntryModel| eligible(e, player.sub, req.app_version, req.rom_hash);
    lemma_first_in(order, r.queue, p);
    if let Some(host_id) = first_opponent(
        order,
        r.queue,
        player.sub,
        req.app_version,
        req.rom_hash,
    ) {
        assert(p(r.queue[host_id]));
    }
}

/// If anyone who could be a player's opponent waits, the player is matched.
pub proof fn whoever_can_be_paired_is(
    s: StateModel,
    player: ClaimsModel,
    req: LfgRequestModel,
    session_id: Seq<char>,
    room_id: Seq<char>,
    now: Timestamp,
    order: Seq<Seq<char>>,
    k: Seq<char>,
)
    requires
        endpoint(req.stun_endpoint),
        lists_keys(order, s.queue),
        s.queue.contains_key(k),
        eligible(s.queue[k], player.sub, req.app_version, req.rom_hash),
        !(s.player_sessions.contains_key(player.sub) && s.player_sessions[player.sub] == k),
    ensures
        lfg(s, player, req, session_id, room_id, now, order).1 matches Ok((answer, _))
            && answer.status == MatchStatus::Matched,
{
    let r = requeued(s, player.sub);
    let p = |e: QueueEntryModel| eligible(e, player.sub, req.app_version, req.rom_hash);
    lemma_first_in(order, r.queue, p);
    assert(r.queue.contains_key(k) && p(r.queue[k]));
    assert(order.contains(k));
}

// What the two are told

/// The two who are paired are told of each other: the same room, the same time to
/// punch, each other's endpoint and name, opposite roles, and credentials of
/// their own.
pub proof fn pairing_is_mutual(
    s: StateModel,
    host_id: Seq<char>,
    player: ClaimsModel,
    stun_endpoint: Seq<char>,
    app_version: Seq<char>,
    rom_hash: Seq<char>,
    session_id: Seq<char>,
    room_id: Seq<char>,
    now: Timestamp,
)
    requires
        s.queue.contains_key(host_id),
        host_id != session_id,
    ensures
        ({
            let after = paired(
                s,
                host_id,
                s.queue[host_id].username,
                player,
                stun_endpoint,
                app_version,
                rom_hash,
                session_id,
                room_id,
                now,
            );
            let host = after.queue[host_id];
            let join = after.queue[session_id];
            &&& after.queue.contains_key(host_id) && after.queue.contains_key(session_id)
            &&& host.match_info matches Some(a) && join.match_info matches Some(b) && {
                &&& a.room_id == room_id && b.room_id == room_id
                &&& a.punch_at_ms == b.punch_at_ms
                &&& a.role == PlayerRole::Host && b.role == PlayerRole::Join
                &&& a.peer_endpoint == join.stun_endpoint && b.peer_endpoint == host.stun_endpoint
                &&& a.username == join.username && b.username == host.username
                &&& a.turn == room_credentials(s.config, room_id, 0, now)
                &&& b.turn == room_credentials(s.config, room_id, 1, now)
            }
        }),
{
}

/// Both who are paired see the match when they poll.
pub proof fn both_see_the_match(
    s: StateModel,
    player: ClaimsModel,
    req: LfgRequestModel,
    session_id: Seq<char>,
    room_id: Seq<char>,
    now: Timestamp,
    order: Seq<Seq<char>>,
)
    requires
        new_session_id(s, session_id),
        new_room_id(s, room_id),
        lfg(s, player, req, session_id, room_id, now, order).1 matches Ok((answer, _))
            && answer.status == MatchStatus::Matched,
    ensures
        ({
            let after = lfg(s, player, req, session_id, room_id, now, order).0;
            let r = requeued(s, player.sub);
            let host_id = first_opponent(
                order,
                r.queue,
                player.sub,
                req.app_version,
                req.rom_hash,
            )->0;
            &&& session_status(after, player.sub, session_id) == Ok::<
                MatchStatusResponseModel,
                AppErrorModel,
            >(
                MatchStatusResponseModel {
                    status: MatchStatus::Matched,
                    match_info: after.queue[session_id].match_info,
                },
            )
            &&& session_status(after, s.queue[host_id].discord_id, host_id) == Ok::<
                MatchStatusResponseModel,
                AppErrorModel,
            >(
                MatchStatusResponseModel {
                    status: MatchStatus::Matched,
                    match_info: after.queue[host_id].match_info,
                },
            )
        }),
{
    let after = lfg(s, player, req, session_id, room_id, now, order).0;
    let r = requeued(s, player.sub);
    let p = |e: QueueEntryModel| eligible(e, player.sub, req.app_version, req.rom_hash);
    lemma_first_in(order, r.queue, p);
    let host_id = first_opponent(order, r.queue, player.sub, req.app_version, req.rom_hash)->0;
    assert(p(r.queue[host_id]));
    assert(s.queue.contains_key(host_id) && host_id != session_id);
    assert forall|k: Seq<char>| #[trigger] after.queue.contains_key(k) && in_room(
        after.queue[k],
        room_id,
    ) implies !after.queue[k].cancelled by {
        if k != host_id && k != session_id {
            assert(r.queue.contains_key(k) && after.queue[k] == r.queue[k]);
            assert(s.queue.contains_key(k) && r.queue[k].match_info == s.queue[k].match_info);
        }
    }
}

// When a match is off

/// A match that a player calls off is off for both: either sees it cancelled.
pub proof fn calling_off_is_seen_by_both(s: StateModel, player: Seq<char>, other: Seq<char>)
    requires
        in_order(s),
        s.player_sessions.contains_key(player),
        s.queue.contains_key(s.player_sessions[player]),
        s.queue[s.player_sessions[player]].match_info is Some,
        s.queue.contains_key(other),
        partner(
            s.queue[other],
            player,
            s.queue[s.player_sessions[player]].match_info->0.room_id,
        ),
    ensures
        ({
            let after = queue_cancelled(s, player);
            let off = Ok::<MatchStatusResponseModel, AppErrorModel>(
                MatchStatusResponseModel { status: MatchStatus::Cancelled, match_info: None },
            );
            &&& session_status(after, player, s.player_sessions[player]) == off
            &&& session_status(after, s.queue[other].discord_id, other) == off
        }),
{
    let after = queue_cancelled(s, player);
    let sid = s.player_sessions[player];
    assert(after.queue.contains_key(sid) && after.queue[sid].cancelled);
    assert(after.queue.contains_key(other));
    assert(partner(
        after.queue[sid],
        s.queue[other].discord_id,
        after.queue[other].match_info->0.room_id,
    ));
}

/// Whoever looks for another opponent calls off the match they were in: the one
/// whom they leave sees it cancelled.
pub proof fn looking_anew_calls_off_the_old_match(
    s: StateModel,
    player: ClaimsModel,
    req: LfgRequestModel,
    session_id: Seq<char>,
    room_id: Seq<char>,
    now: Timestamp,
    order: Seq<Seq<char>>,
    other: Seq<char>,
)
    requires
        in_order(s),
        endpoint(req.stun_endpoint),
        new_session_id(s, session_id),
        s.player_sessions.contains_key(player.sub),
        s.queue.contains_key(s.player_sessions[player.sub]),
        ({
            let previous = s.queue[s.player_sessions[player.sub]];
            &&& !previous.cancelled
            &&& previous.match_info is Some
            &&& s.queue.contains_key(other)
            &&& partner(s.queue[other], player.sub, previous.match_info->0.room_id)
        }),
    ensures
        session_status(
            lfg(s, player, req, session_id, room_id, now, order).0,
            s.queue[other].discord_id,
            other,
        ) == Ok::<MatchStatusResponseModel, AppErrorModel>(
            MatchStatusResponseModel { status: MatchStatus::Cancelled, match_info: None },
        ),
{
    let r = requeued(s, player.sub);
    assert(other != s.player_sessions[player.sub]);
    assert(r.queue.contains_key(other) && r.queue[other].cancelled);
    let p = |e: QueueEntryModel| eligible(e, player.sub, req.app_version, req.rom_hash);
    lemma_first_in(order, r.queue, p);
    if let Some(host_id) = first_opponent(
        order,
        r.queue,
        player.sub,
        req.app_version,
        req.rom_hash,
    ) {
        assert(p(r.queue[host_id]));
    }
}

/// A player holds one session at a time: the previous one is gone.
pub proof fn a_new_session_replaces_the_old_one(
    s: StateModel,
    player: ClaimsModel,
    req: LfgRequestModel,
    session_id: Seq<char>,
    room_id: Seq<char>,
    now: Timestamp,
    order: Seq<Seq<char>>,
)
    requires
        endpoint(req.stun_endpoint),
        new_session_id(s, session_id),
    ensures
        ({
            let after = lfg(s, player, req, session_id, room_id, now, order).0;
            &&& after.player_sessions.contains_key(player.sub)
            &&& after.player_sessions[player.sub] == session_id
            &&& after.queue.contains_key(session_id)
            &&& s.player_sessions.contains_key(player.sub) ==> !after.queue.contains_key(
                s.player_sessions[player.sub],
            )
        }),
{
    let r = requeued(s, player.sub);
    let p = |e: QueueEntryModel| eligible(e, player.sub, req.app_version, req.rom_hash);
    lemma_first_in(order, r.queue, p);
    if let Some(host_id) = first_opponent(
        order,
        r.queue,
        player.sub,
        req.app_version,
        req.rom_hash,
    ) {
        assert(r.queue.contains_key(host_id));
    }
}

// Relayed addresses

/// The relayed address that a player reports is the one that the partner is
/// given.
pub proof fn a_relayed_address_reaches_the_partner(
    s: StateModel,
    player: Seq<char>,
    session_id: Seq<char>,
    req: TurnReadyRequestModel,
    other: Seq<char>,
    order: Seq<Seq<char>>,
)
    requires
        in_order(s),
        endpoint(req.relayed_addr),
        session_refusal(s, player, session_id) is None,
        s.queue[session_id].match_info is Some,
        s.queue.contains_key(other),
        partner(s.queue[other], player, s.queue[session_id].match_info->0.room_id),
        lists_keys(order, s.queue),
    ensures
        peer_address(
            relay_reported(s, player, session_id, req).0,
            s.queue[other].discord_id,
            other,
            order,
        ) == Ok::<PeerRelayResponseModel, AppErrorModel>(
            PeerRelayResponseModel { peer_relayed_addr: Some(req.relayed_addr) },
        ),
{
    let after = relay_reported(s, player, session_id, req).0;
    turn_ready_keeps_order(s, player, session_id, req);
    assert(after.queue.dom() =~= s.queue.dom());
    assert(lists_keys(order, after.queue)) by {
        assert forall|k: Seq<char>| order.contains(k) <==> #[trigger] after.queue.contains_key(k) by {
            assert(s.queue.contains_key(k) == after.queue.contains_key(k));
        }
    }
    assert(other != session_id);
    partners_are_unique(after, other, order, order);
    assert(after.queue.contains_key(session_id));
    assert(partner(
        after.queue[session_id],
        after.queue[other].discord_id,
        after.queue[other].match_info->0.room_id,
    ));
}

// Results

/// Result ids tell games apart: different rooms or different games have different
/// ids.
pub proof fn result_ids_are_distinct(
    room_a: Seq<char>,
    index_a: u32,
    room_b: Seq<char>,
    index_b: u32,
)
    requires
        result_id(room_a, index_a) == result_id(room_b, index_b),
    ensures
        room_a == room_b,
        index_a == index_b,
{
    reveal_strlit("#");
    let (da, db) = (decimal(index_a as nat), decimal(index_b as nat));
    lemma_decimal_digits(index_a as nat);
    lemma_decimal_digits(index_b as nat);
    let a = result_id(room_a, index_a);
    let b = result_id(room_b, index_b);
    assert("#"@ == seq!['#']);
    assert(a == room_a + (seq!['#'] + da));
    assert(b == room_b + (seq!['#'] + db));
    assert(a[room_a.len() as int] == '#');
    assert(b[room_b.len() as int] == '#');
    assert(a.len() == room_a.len() + 1 + da.len());
    assert(b.len() == room_b.len() + 1 + db.len());
    if room_a.len() < room_b.len() {
        assert(a[room_b.len() as int] == da[room_b.len() - room_a.len() - 1]);
    }
    if room_b.len() < room_a.len() {
        assert(b[room_a.len() as int] == db[room_a.len() - room_b.len() - 1]);
    }
    assert(room_a =~= a.take(room_a.len() as int));
    assert(room_b =~= b.take(room_b.len() as int));
    assert(da =~= a.skip(room_a.len() as int + 1));
    assert(db =~= b.skip(room_b.len() as int + 1));
    lemma_decimal_injective(index_a as nat, index_b as nat);
}

/// A result counts only once both players have reported it: nothing becomes
/// confirmed unless someone else has reported the same scores before, and nothing
/// is forwarded unless it becomes confirmed.
pub proof fn results_take_two_equal_reports(
    s: StateModel,
    player: Seq<char>,
    req: MatchResultRequestModel,
    now: Timestamp,
    order: Seq<Seq<char>>,
    lobby_order: Seq<Seq<char>>,
    id: Seq<char>,
)
    ensures
        ({
            let (after, res) = reported(s, player, req, now, order, lobby_order);
            let own_id = result_id(
                s.queue[req.session_id].match_info->0.room_id,
                req.match_index,
            );
            &&& after.confirmed_results.contains_key(id) && !s.confirmed_results.contains_key(id)
                ==> {
                &&& id == own_id
                &&& s.pending_results.contains_key(id)
                &&& s.pending_results[id].reporter_discord_id != player
                &&& s.pending_results[id].p1_score == req.p1_score
                &&& s.pending_results[id].p2_score == req.p2_score
            }
            &&& res.forward is Some ==> after.confirmed_results.contains_key(own_id)
                && !s.confirmed_results.contains_key(own_id)
        }),
{
}

/// A result that is confirmed stays as it is: a further report of it changes
/// nothing and forwards nothing.
pub proof fn confirmed_results_are_final(
    s: StateModel,
    player: Seq<char>,
    req: MatchResultRequestModel,
    now: Timestamp,
    order: Seq<Seq<char>>,
    lobby_order: Seq<Seq<char>>,
)
    requires
        session_refusal(s, player, req.session_id) is None,
        s.queue[req.session_id].match_info is Some,
        s.confirmed_results.contains_key(
            result_id(s.queue[req.session_id].match_info->0.room_id, req.match_index),
        ),
    ensures
        reported(s, player, req, now, order, lobby_order) == (
            s,
            replied(Ok(ResultReply::AlreadyRecorded)),
        ),
{
}

/// A player who reports again before the partner changes nothing.
pub proof fn a_repeated_report_changes_nothing(
    s: StateModel,
    player: Seq<char>,
    req: MatchResultRequestModel,
    again: MatchResultRequestModel,
    now: Timestamp,
    later: Timestamp,
    order: Seq<Seq<char>>,
    lobby_order: Seq<Seq<char>>,
)
    requires
        reported(s, player, req, now, order, lobby_order).1.reply == Ok::<
            ResultReply,
            AppErrorModel,
        >(ResultReply::PendingPartner),
        again.session_id == req.session_id,
        again.match_index == req.match_index,
    ensures
        ({
            let once = reported(s, player, req, now, order, lobby_order).0;
            reported(once, player, again, later, order, lobby_order) == (
                once,
                replied(Ok(ResultReply::DuplicateSelfReport)),
            )
        }),
{
}

/// Two reports that differ are both dropped: the game is neither pending nor
/// confirmed, nothing is forwarded, and the incident is noted.
pub proof fn reports_that_differ_are_dropped(
    s: StateModel,
    player: Seq<char>,
    req: MatchResultRequestModel,
    now: Timestamp,
    order: Seq<Seq<char>>,
    lobby_order: Seq<Seq<char>>,
)
    requires
        session_refusal(s, player, req.session_id) is None,
        s.queue[req.session_id].match_info is Some,
        ({
            let id = result_id(s.queue[req.session_id].match_info->0.room_id, req.match_index);
            let first = s.pending_results[id];
            &&& !s.confirmed_results.contains_key(id)
            &&& s.pending_results.contains_key(id)
            &&& first.reporter_discord_id != player
            &&& first.p1_score != req.p1_score || first.p2_score != req.p2_score
        }),
    ensures
        ({
            let id = result_id(s.queue[req.session_id].match_info->0.room_id, req.match_index);
            let (after, res) = reported(s, player, req, now, order, lobby_order);
            &&& !after.pending_results.contains_key(id)
            &&& !after.confirmed_results.contains_key(id)
            &&& res.reply is Err
            &&& res.forward is None
            &&& res.incident is Some
        }),
{
}

/// In tables that are in order, the second of two equal reports settles the game
/// whatever the order in which sessions are met, as long as the partner's session
/// is still there.
pub proof fn equal_reports_settle_the_game(
    s: StateModel,
    player: Seq<char>,
    req: MatchResultRequestModel,
    now: Timestamp,
    order: Seq<Seq<char>>,
    lobby_order: Seq<Seq<char>>,
    other: Seq<char>,
)
    requires
        in_order(s),
        lists_keys(order, s.queue),
        session_refusal(s, player, req.session_id) is None,
        s.queue[req.session_id].match_info is Some,
        s.queue.contains_key(other),
        partner(s.queue[other], player, s.queue[req.session_id].match_info->0.room_id),
        ({
            let id = result_id(s.queue[req.session_id].match_info->0.room_id, req.match_index);
            let first = s.pending_results[id];
            &&& !s.confirmed_results.contains_key(id)
            &&& s.pending_results.contains_key(id)
            &&& first.reporter_discord_id != player
            &&& first.p1_score == req.p1_score && first.p2_score == req.p2_score
        }),
    ensures
        ({
            let id = result_id(s.queue[req.session_id].match_info->0.room_id, req.match_index);
            let (after, res) = reported(s, player, req, now, order, lobby_order);
            &&& res.reply == Ok::<ResultReply, AppErrorModel>(ResultReply::Recorded)
            &&& after.confirmed_results.contains_key(id)
            &&& !after.pending_results.contains_key(id)
        }),
{
    let own = s.queue[req.session_id];
    let room_id = own.match_info->0.room_id;
    let id = result_id(room_id, req.match_index);
    let counted = confirmed(s, id, now);
    partners_are_unique(s, req.session_id, order, order);
    assert(first_partner(order, s.queue, own.discord_id, room_id) == Some(other));
    assert(counted.queue == s.queue);
    assert(req.session_id != other);
    assert(rooms_paired(s.queue));
    assert(own.match_info->0.role != s.queue[other].match_info->0.role);
}

/// It does not matter who reports first: two equal reports come to the same
/// reply, and the stats service is told the same, in either order.
pub proof fn either_player_may_report_first(
    s: StateModel,
    a: MatchResultRequestModel,
    b: MatchResultRequestModel,
    now: Timestamp,
    order: Seq<Seq<char>>,
    lobby_order: Seq<Seq<char>>,
)
    requires
        in_order(s),
        builds_match(s.queue),
        lists_keys(order, s.queue),
        s.queue.contains_key(a.session_id),
        s.queue.contains_key(b.session_id),
        s.queue[a.session_id].match_info is Some,
        partner(
            s.queue[b.session_id],
            s.queue[a.session_id].discord_id,
            s.queue[a.session_id].match_info->0.room_id,
        ),
        a.match_index == b.match_index,
        a.p1_score == b.p1_score,
        a.p2_score == b.p2_score,
        ({
            let id = result_id(s.queue[a.session_id].match_info->0.room_id, a.match_index);
            !s.confirmed_results.contains_key(id) && !s.pending_results.contains_key(id)
        }),
    ensures
        ({
            let pa = s.queue[a.session_id].discord_id;
            let pb = s.queue[b.session_id].discord_id;
            let first_a = reported(s, pa, a, now, order, lobby_order).0;
            let first_b = reported(s, pb, b, now, order, lobby_order).0;
            let then_b = reported(first_a, pb, b, now, order, lobby_order).1;
            let then_a = reported(first_b, pa, a, now, order, lobby_order).1;
            then_a == then_b && then_a.reply == Ok::<ResultReply, AppErrorModel>(
                ResultReply::Recorded,
            )
        }),
{
    let (ka, kb) = (a.session_id, b.session_id);
    let (pa, pb) = (s.queue[ka].discord_id, s.queue[kb].discord_id);
    let room_id = s.queue[ka].match_info->0.room_id;
    let id = result_id(room_id, a.match_index);
    let first_a = reported(s, pa, a, now, order, lobby_order).0;
    let first_b = reported(s, pb, b, now, order, lobby_order).0;
    partners_are_unique(s, ka, order, order);
    partners_are_unique(s, kb, order, order);
    assert(partner(s.queue[ka], pb, room_id));
    assert(first_partner(order, s.queue, pa, room_id) == Some(kb));
    assert(first_partner(order, s.queue, pb, room_id) == Some(ka));
    assert(ka != kb);
    assert(s.queue[ka].match_info->0.role != s.queue[kb].match_info->0.role);
    let after_a = confirmed(first_a, id, now);
    let after_b = confirmed(first_b, id, now);
    assert(after_a.queue == s.queue && after_b.queue == s.queue);
    assert(unranked_room(after_a, room_id) == unranked_room(after_b, room_id)) by {
        assert(after_a.koh_lobbies == after_b.koh_lobbies);
    }
}

/// The winner of a verdict is the player with the higher score, who is player one
/// exactly if they host; on equal scores it is the joining player.
pub proof fn the_higher_score_wins(
    host: QueueEntryModel,
    join: QueueEntryModel,
    p1_score: u16,
    p2_score: u16,
    id: Seq<char>,
    rom_hash: Seq<char>,
)
    ensures
        ({
            let v = verdict(host, join, p1_score, p2_score, id, rom_hash);
            &&& v.winner_score >= v.loser_score
            &&& p1_score > p2_score ==> v.winner_id == host.discord_id && v.loser_id
                == join.discord_id
            &&& p1_score <= p2_score ==> v.winner_id == join.discord_id && v.loser_id
                == host.discord_id
        }),
{
}

/// The result of a lobby's match is a result between the two who play it.
pub proof fn a_lobby_match_is_decided_between_its_players(
    s: StateModel,
    lobby_id: Seq<char>,
    a: Seq<char>,
    b: Seq<char>,
    p1_score: u16,
    p2_score: u16,
    id: Seq<char>,
    rom_hash: Seq<char>,
)
    requires
        in_order(s),
        s.koh_lobbies.contains_key(lobby_id),
        s.koh_lobbies[lobby_id].current is Some,
        s.queue.contains_key(a),
        s.queue.contains_key(b),
        a != b,
        in_room(s.queue[a], s.koh_lobbies[lobby_id].current->0.room_id),
        in_room(s.queue[b], s.koh_lobbies[lobby_id].current->0.room_id),
    ensures
        ({
            let c = s.koh_lobbies[lobby_id].current->0;
            &&& seated(s.queue[a], s.queue[b]) matches Some((host, join)) && {
                let v = verdict(host, join, p1_score, p2_score, id, rom_hash);
                ||| v.winner_id == c.host && v.loser_id == c.join
                ||| v.winner_id == c.join && v.loser_id == c.host
            }
        }),
{
    let c = s.koh_lobbies[lobby_id].current->0;
    assert(session_of_match(c, a, s.queue[a]));
    assert(session_of_match(c, b, s.queue[b]));
}

/// The stats service is tried at most five times.
pub proof fn attempts_end(attempt: int, came: Attempt)
    requires
        attempt >= 4,
    ensures
        !(after_attempt(attempt, came) is RetryAfter),
{
}

} // verus!
