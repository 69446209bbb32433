//! What a sweep drops and what it keeps, by the age of each row.

use vstd::prelude::*;
use crate::challenges::awaits;
use crate::hill_laws::leaving_frees_the_other;
use crate::incidents::{
    lfg_no_pair, matched_no_result, DetailModel, DetailValueModel, ServerIncidentModel,
};
use crate::koh::{is_member, lemma_seat, line_of_members, members_without, pending_checked};
use crate::lobbies::{left, plays};
use crate::lobby_laws::{
    lemma_all_left, lemma_all_left_current, lemma_filter, lobby_in_order, lobby_sound,
};
use crate::lobby_requests::lobby_left;
use crate::models::{
    Challenge, ConfirmedResult, KohLobbyModel, LobbyChatEntry, LobbyMemberModel, LobbyPresence,
    LobbyRole, OAuthState, PendingResult, PlayerRole, QueueEntryModel, SparRoom, SpectatorFrame,
};
use crate::pairing_laws::of_a_clock;
use crate::result_laws::{counts, says};
use crate::state::StateModel;
use crate::sweeper::{
    all_left, challenges_swept, drops, ended_in, expired, has_result, idle, idle_players,
    lobbies_closed, lobbies_swept, lobby_swept, queue_swept, rows_swept, session_incidents,
    sessions_swept, stale_keys, stale_session, stuck, swept, unstuck, SweepCounts,
};
use crate::table::lists_keys;
use crate::text::decimal;
use crate::time::{elapsed_secs, rfc3339_at, Timestamp};

verus! {

/// Whether a point in time is more than so many whole seconds ago.
pub open spec fn older(now: Timestamp, then: Timestamp, secs: int) -> bool {
    now.nanos - then.nanos >= (secs + 1) * 1_000_000_000
}

/// Age in whole seconds against age in nanoseconds.
proof fn lemma_older(now: Timestamp, then: Timestamp, secs: int)
    requires
        0 <= secs < 1_000_000,
    ensures
        elapsed_secs(now, then) > secs <==> older(now, then, secs),
{
}

/// Rooms are kept for ten minutes, and so are confirmed results; a single report
/// for one minute; frames and heartbeats for a minute and a half; chat for half an
/// hour; nonces for five minutes. A sweep drops what is older, keeps the rest as
/// it is, and leaves ratings and configuration alone.
pub proof fn rows_are_kept_for_their_time(
    s: StateModel,
    now: Timestamp,
    order: Seq<Seq<char>>,
    k: Seq<char>,
)
    ensures
        ({
            let after = swept(s, now, order);
            &&& after.spar_rooms.contains_key(k) <==> s.spar_rooms.contains_key(k) && !older(
                now,
                s.spar_rooms[k].created_at,
                600,
            )
            &&& after.spar_rooms.contains_key(k) ==> after.spar_rooms[k] == s.spar_rooms[k]
            &&& after.confirmed_results.contains_key(k) <==> s.confirmed_results.contains_key(k)
                && !older(now, s.confirmed_results[k].committed_at, 600)
            &&& after.confirmed_results.contains_key(k) ==> after.confirmed_results[k]
                == s.confirmed_results[k]
            &&& after.pending_results.contains_key(k) <==> s.pending_results.contains_key(k)
                && !older(now, s.pending_results[k].reported_at, 60)
            &&& after.pending_results.contains_key(k) ==> after.pending_results[k]
                == s.pending_results[k]
            &&& after.spectator_frames.contains_key(k) <==> s.spectator_frames.contains_key(k)
                && !older(now, s.spectator_frames[k].updated_at, 90)
            &&& after.spectator_frames.contains_key(k) ==> after.spectator_frames[k]
                == s.spectator_frames[k]
            &&& after.lobby_presence.contains_key(k) <==> s.lobby_presence.contains_key(k)
                && !older(now, s.lobby_presence[k].last_seen, 90)
            &&& after.lobby_presence.contains_key(k) ==> after.lobby_presence[k]
                == s.lobby_presence[k]
            &&& after.lobby_chat.contains_key(k) <==> s.lobby_chat.contains_key(k) && !older(
                now,
                s.lobby_chat[k].created_at,
                1800,
            )
            &&& after.lobby_chat.contains_key(k) ==> after.lobby_chat[k] == s.lobby_chat[k]
            &&& after.oauth_states.contains_key(k) <==> s.oauth_states.contains_key(k) && !older(
                now,
                s.oauth_states[k].issued_at,
                300,
            )
            &&& after.oauth_states.contains_key(k) ==> after.oauth_states[k] == s.oauth_states[k]
            &&& after.challenges.contains_key(k) <==> s.challenges.contains_key(k) && !older(
                now,
                s.challenges[k].created_at,
                120,
            )
            &&& after.challenges.contains_key(k) ==> after.challenges[k] == s.challenges[k]
            &&& after.ratings == s.ratings && after.config == s.config
        }),
{
}

/// Whether a session is dropped for its age: after five minutes, or half a minute
/// once it is called off.
pub open spec fn worn_out(e: QueueEntryModel, now: Timestamp) -> bool {
    older(now, e.queued_at, 300) || e.cancelled && older(now, e.queued_at, 30)
}

/// Whether a session is one of a lobby's match that has gone on for more than ten
/// minutes.
pub open spec fn match_ran_out(s: StateModel, k: Seq<char>, now: Timestamp) -> bool {
    exists|id: Seq<char>|
        {
            &&& #[trigger] s.koh_lobbies.contains_key(id)
            &&& s.koh_lobbies[id].current is Some
            &&& older(now, s.koh_lobbies[id].current->0.started_at, 600)
            &&& s.koh_lobbies[id].current->0.host_session == k
                || s.koh_lobbies[id].current->0.join_session == k
        }
}

/// A sweep drops the sessions that are worn out and those of lobby matches that
/// have run out. Whoever waited with a challenge that is more than two minutes old
/// is called off; the other sessions are as they were.
pub proof fn sessions_are_kept_for_their_time(
    s: StateModel,
    now: Timestamp,
    order: Seq<Seq<char>>,
    k: Seq<char>,
)
    requires
        lists_keys(order, s.queue),
    ensures
        ({
            let after = swept(s, now, order);
            let unanswered = exists|c: Seq<char>|
                {
                    &&& #[trigger] s.challenges.contains_key(c)
                    &&& older(now, s.challenges[c].created_at, 120)
                    &&& s.challenges[c].challenger_session_id == k
                };
            &&& after.queue.contains_key(k) <==> s.queue.contains_key(k) && !worn_out(
                s.queue[k],
                now,
            ) && !match_ran_out(s, k, now)
            &&& after.queue.contains_key(k) && unanswered ==> after.queue[k] == (QueueEntryModel {
                cancelled: true,
                ..s.queue[k]
            })
            &&& after.queue.contains_key(k) && !unanswered ==> after.queue[k] == s.queue[k]
        }),
{
    let one = queue_swept(s, now, order);
    let two = rows_swept(one, now);
    let three = challenges_swept(two, now);
    let after = swept(s, now, order);
    assert(two.challenges == s.challenges && three.koh_lobbies == s.koh_lobbies);
    if s.queue.contains_key(k) {
        assert(order.contains(k));
        lemma_older(now, s.queue[k].queued_at, 300);
        lemma_older(now, s.queue[k].queued_at, 30);
    }
    let old = expired::<Challenge>(s.challenges, now, 120);
    let gone = s.challenges.restrict(old);
    if awaits(gone, k) {
        let c = choose|c: Seq<char>|
            #[trigger] gone.contains_key(c) && gone[c].challenger_session_id == k;
        assert(s.challenges.contains_key(c) && old.contains(c));
    }
    if exists|c: Seq<char>|
        #[trigger] s.challenges.contains_key(c) && older(now, s.challenges[c].created_at, 120)
            && s.challenges[c].challenger_session_id == k {
        let c = choose|c: Seq<char>|
            #[trigger] s.challenges.contains_key(c) && older(now, s.challenges[c].created_at, 120)
                && s.challenges[c].challenger_session_id == k;
        assert(gone.contains_key(c));
    }
    let ended = ended_in(three, three.koh_lobbies.dom(), now);
    assert(ended.contains(k) <==> match_ran_out(s, k, now)) by {
        if ended.contains(k) {
            let id = choose|id: Seq<char>|
                three.koh_lobbies.dom().contains(id) && #[trigger] three.koh_lobbies.contains_key(
                    id,
                ) && sessions_swept(three.koh_lobbies[id], now).contains(k);
            assert(s.koh_lobbies.contains_key(id));
        }
        if match_ran_out(s, k, now) {
            let id = choose|id: Seq<char>|
                #[trigger] s.koh_lobbies.contains_key(id) && s.koh_lobbies[id].current is Some
                    && older(now, s.koh_lobbies[id].current->0.started_at, 600) && (
                s.koh_lobbies[id].current->0.host_session == k
                    || s.koh_lobbies[id].current->0.join_session == k);
            assert(three.koh_lobbies.contains_key(id));
            assert(sessions_swept(three.koh_lobbies[id], now).contains(k));
        }
    }
}

/// A player still holds a session after a sweep, unless it was their own and was
/// dropped for its age.
pub proof fn only_dropped_sessions_are_let_go(
    s: StateModel,
    now: Timestamp,
    order: Seq<Seq<char>>,
    player: Seq<char>,
)
    requires
        lists_keys(order, s.queue),
    ensures
        ({
            let after = swept(s, now, order);
            let k = s.player_sessions[player];
            &&& after.player_sessions.contains_key(player) <==> s.player_sessions.contains_key(
                player,
            ) && !(s.queue.contains_key(k) && s.queue[k].discord_id == player && worn_out(
                s.queue[k],
                now,
            ))
            &&& after.player_sessions.contains_key(player) ==> after.player_sessions[player] == k
        }),
{
    let k = s.player_sessions[player];
    if s.queue.contains_key(k) {
        assert(order.contains(k));
        lemma_older(now, s.queue[k].queued_at, 300);
        lemma_older(now, s.queue[k].queued_at, 30);
    }
}

/// A sweep counts what it drops, each kind for itself.
pub proof fn what_is_dropped_is_counted(
    s: StateModel,
    now: Timestamp,
    order: Seq<Seq<char>>,
    n: SweepCounts,
)
    requires
        lists_keys(order, s.queue),
        drops(s, now, order, n),
    ensures
        n.queue == s.queue.dom().filter(|k: Seq<char>| worn_out(s.queue[k], now)).len(),
        n.spar == s.spar_rooms.dom().filter(
            |k: Seq<char>| older(now, s.spar_rooms[k].created_at, 600),
        ).len(),
        n.confirmed == s.confirmed_results.dom().filter(
            |k: Seq<char>| older(now, s.confirmed_results[k].committed_at, 600),
        ).len(),
        n.pending == s.pending_results.dom().filter(
            |k: Seq<char>| older(now, s.pending_results[k].reported_at, 60),
        ).len(),
        n.spectator == s.spectator_frames.dom().filter(
            |k: Seq<char>| older(now, s.spectator_frames[k].updated_at, 90),
        ).len(),
        n.lobby_presence == s.lobby_presence.dom().filter(
            |k: Seq<char>| older(now, s.lobby_presence[k].last_seen, 90),
        ).len(),
        n.lobby_chat == s.lobby_chat.dom().filter(
            |k: Seq<char>| older(now, s.lobby_chat[k].created_at, 1800),
        ).len(),
        n.challenges == s.challenges.dom().filter(
            |k: Seq<char>| older(now, s.challenges[k].created_at, 120),
        ).len(),
        n.oauth == s.oauth_states.dom().filter(
            |k: Seq<char>| older(now, s.oauth_states[k].issued_at, 300),
        ).len(),
{
    assert(stale_keys(order, s.queue, now) =~= s.queue.dom().filter(
        |k: Seq<char>| worn_out(s.queue[k], now),
    )) by {
        assert forall|k: Seq<char>| stale_keys(order, s.queue, now).contains(k) == (
        s.queue.contains_key(k) && worn_out(s.queue[k], now)) by {
            lemma_older(now, s.queue[k].queued_at, 300);
            lemma_older(now, s.queue[k].queued_at, 30);
        }
    }
    assert(expired::<SparRoom>(s.spar_rooms, now, 600) =~= s.spar_rooms.dom().filter(
        |k: Seq<char>| older(now, s.spar_rooms[k].created_at, 600),
    ));
    assert(expired::<ConfirmedResult>(s.confirmed_results, now, 600)
        =~= s.confirmed_results.dom().filter(
        |k: Seq<char>| older(now, s.confirmed_results[k].committed_at, 600),
    ));
    assert(expired::<PendingResult>(s.pending_results, now, 60) =~= s.pending_results.dom().filter(
        |k: Seq<char>| older(now, s.pending_results[k].reported_at, 60),
    ));
    assert(expired::<SpectatorFrame>(s.spectator_frames, now, 90)
        =~= s.spectator_frames.dom().filter(
        |k: Seq<char>| older(now, s.spectator_frames[k].updated_at, 90),
    ));
    assert(expired::<LobbyPresence>(s.lobby_presence, now, 90) =~= s.lobby_presence.dom().filter(
        |k: Seq<char>| older(now, s.lobby_presence[k].last_seen, 90),
    ));
    assert(expired::<LobbyChatEntry>(s.lobby_chat, now, 1800) =~= s.lobby_chat.dom().filter(
        |k: Seq<char>| older(now, s.lobby_chat[k].created_at, 1800),
    ));
    assert(expired::<Challenge>(s.challenges, now, 120) =~= s.challenges.dom().filter(
        |k: Seq<char>| older(now, s.challenges[k].created_at, 120),
    ));
    assert(expired::<OAuthState>(s.oauth_states, now, 300) =~= s.oauth_states.dom().filter(
        |k: Seq<char>| older(now, s.oauth_states[k].issued_at, 300),
    ));
}

// Incidents

/// Whether a room has a confirmed result.
pub open spec fn came_to_a_result(s: StateModel, room_id: Seq<char>) -> bool {
    exists|r: Seq<char>|
        {
            &&& #[trigger] s.confirmed_results.contains_key(r)
            &&& r == room_id || r.len() > room_id.len() && r.take(room_id.len() as int) == room_id
                && r[room_id.len() as int] == '#'
        }
}

/// Whether a dropped session is worth a note: it was not called off, and it either
/// found nobody or its match came to no result.
pub open spec fn noteworthy(s: StateModel, e: QueueEntryModel) -> bool {
    &&& !e.cancelled
    &&& e.match_info matches Some(info) ==> !came_to_a_result(s, info.room_id)
}

/// Whether a note is of a session that was dropped.
pub open spec fn notes(
    n: ServerIncidentModel,
    e: QueueEntryModel,
    now: Timestamp,
) -> bool {
    let d = n.details;
    let age = now.nanos - e.queued_at.nanos;
    let counted = 0 <= age < 9_000_000_000_000_000_000_000_000_000;
    let secs = decimal((age / 1_000_000_000) as nat);
    &&& n.session_ids == seq![e.session_id]
    &&& says(d, "rom_hash"@, e.rom_hash) && says(d, "app_version"@, e.app_version)
    &&& says(d, "queued_at"@, rfc3339_at(e.queued_at)) && says(d, "reaped_at"@, rfc3339_at(now))
    &&& e.match_info is None ==> {
        &&& n.kind == "lfg_no_pair"@ && n.room_id.len() == 0
        &&& n.usernames == seq![e.username]
        &&& counted ==> n.summary == e.username + " sat in queue "@ + secs
            + "s without finding a partner (rom="@ + e.rom_hash + ", app="@ + e.app_version + ")"@
        &&& d.len() == 5 && says(d, "stun_endpoint"@, e.stun_endpoint)
    }
    &&& e.match_info matches Some(info) ==> {
        &&& n.kind == "matched_no_result"@ && n.room_id == info.room_id
        &&& n.usernames == seq![e.username, info.username]
        &&& counted ==> n.summary == "Match "@ + info.room_id + " between "@ + e.username
            + " and "@ + info.username + " reaped after "@ + secs + "s with no result"@
        &&& d.len() == 8 && says(d, "peer_endpoint"@, info.peer_endpoint)
        &&& info.role == PlayerRole::Host ==> says(d, "role"@, "Host"@)
        &&& info.role == PlayerRole::Join ==> says(d, "role"@, "Join"@)
        &&& counts(d, "punch_at_ms"@, info.punch_at_ms as int)
        &&& d.contains(
            DetailModel {
                name: "had_turn_creds"@,
                value: DetailValueModel::Flag(info.turn is Some),
            },
        )
    }
}

proof fn lemma_notes(e: QueueEntryModel, now: Timestamp)
    ensures
        e.match_info is None ==> notes(lfg_no_pair(e, now), e, now),
        e.match_info is Some ==> notes(matched_no_result(e, now), e, now),
{
    let n = if e.match_info is None {
        lfg_no_pair(e, now)
    } else {
        matched_no_result(e, now)
    };
    let d = n.details;
    assert(d.contains(d[0]) && d.contains(d[1]) && d.contains(d[2]) && d.contains(d[3])
        && d.contains(d[4]));
    if e.match_info is Some {
        assert(d.len() == 8);
        assert(d.contains(d[5]) && d.contains(d[6]) && d.contains(d[7]));
    }
}

proof fn lemma_result(s: StateModel, room_id: Seq<char>)
    ensures
        has_result(s.confirmed_results, room_id) <==> came_to_a_result(s, room_id),
{
    reveal_strlit("#");
    let results = s.confirmed_results;
    let prefix = room_id + "#"@;
    assert forall|r: Seq<char>| #[trigger] results.contains_key(r) implies prefix.is_prefix_of(r)
        == (r.len() > room_id.len() && r.take(room_id.len() as int) == room_id
        && r[room_id.len() as int] == '#') by {
        if prefix.is_prefix_of(r) {
            assert(r.take(room_id.len() as int) =~= room_id);
            assert(prefix[room_id.len() as int] == '#');
        }
        if r.len() > room_id.len() && r.take(room_id.len() as int) == room_id
            && r[room_id.len() as int] == '#' {
            assert(r.subrange(0, prefix.len() as int) =~= prefix);
        }
    }
    if has_result(results, room_id) {
        if !results.contains_key(room_id) {
            let r = choose|r: Seq<char>|
                #[trigger] results.contains_key(r) && prefix.is_prefix_of(r);
            assert(s.confirmed_results.contains_key(r));
        }
    }
    if came_to_a_result(s, room_id) {
        let r = choose|r: Seq<char>|
            {
                &&& #[trigger] s.confirmed_results.contains_key(r)
                &&& r == room_id || r.len() > room_id.len() && r.take(room_id.len() as int)
                    == room_id && r[room_id.len() as int] == '#'
            };
        assert(results.contains_key(r));
    }
}

/// Whether a note is of a session that was dropped and is worth one.
pub open spec fn is_due(s: StateModel, now: Timestamp, n: ServerIncidentModel) -> bool {
    exists|k: Seq<char>|
        {
            &&& #[trigger] s.queue.contains_key(k) && worn_out(s.queue[k], now)
            &&& noteworthy(s, s.queue[k]) && notes(n, s.queue[k], now)
        }
}

/// Whether a session has its note.
pub open spec fn has_note(
    all: Seq<ServerIncidentModel>,
    e: QueueEntryModel,
    now: Timestamp,
) -> bool {
    exists|i: int| 0 <= i < all.len() && notes(#[trigger] all[i], e, now)
}

proof fn lemma_incidents(s: StateModel, now: Timestamp, order: Seq<Seq<char>>)
    ensures
        ({
            let all = session_incidents(order, s.queue, s.confirmed_results, now);
            &&& all.len() <= order.len()
            &&& forall|i: int| 0 <= i < all.len() ==> is_due(s, now, #[trigger] all[i])
            &&& forall|k: Seq<char>|
                order.contains(k) && #[trigger] s.queue.contains_key(k) && worn_out(
                    s.queue[k],
                    now,
                ) && noteworthy(s, s.queue[k]) ==> has_note(all, s.queue[k], now)
        }),
    decreases order.len(),
{
    if order.len() > 0 {
        let rest = order.drop_last();
        let k = order.last();
        lemma_incidents(s, now, rest);
        let before = session_incidents(rest, s.queue, s.confirmed_results, now);
        let all = session_incidents(order, s.queue, s.confirmed_results, now);
        let e = s.queue[k];
        if s.queue.contains_key(k) {
            lemma_older(now, e.queued_at, 300);
            lemma_older(now, e.queued_at, 30);
            lemma_notes(e, now);
            if e.match_info is Some {
                lemma_result(s, e.match_info->0.room_id);
            }
        }
        assert(stale_session(e, now) == worn_out(e, now)) by {
            lemma_older(now, e.queued_at, 300);
            lemma_older(now, e.queued_at, 30);
        }
        assert(all == before || all == before.push(all.last()));
        assert forall|i: int| 0 <= i < all.len() implies is_due(s, now, #[trigger] all[i]) by {
            if i < before.len() {
                assert(all[i] == before[i]);
            } else {
                assert(s.queue.contains_key(k));
            }
        }
        assert forall|x: Seq<char>|
            order.contains(x) && #[trigger] s.queue.contains_key(x) && worn_out(s.queue[x], now)
                && noteworthy(s, s.queue[x]) implies has_note(all, s.queue[x], now) by {
            if rest.contains(x) {
                let i = choose|i: int|
                    0 <= i < before.len() && notes(#[trigger] before[i], s.queue[x], now);
                assert(notes(all[i], s.queue[x], now));
            } else {
                let j = choose|j: int| 0 <= j < order.len() && order[j] == x;
                if j < order.len() - 1 {
                    assert(rest[j] == x);
                }
                assert(x == k);
                assert(notes(all[before.len() as int], s.queue[x], now));
            }
        }
    }
}

/// A sweep notes each session that it drops for its age without an opponent or
/// without a result, and nothing else: who it was, who was met, and for how long.
pub proof fn lost_sessions_are_noted(s: StateModel, now: Timestamp, order: Seq<Seq<char>>)
    requires
        lists_keys(order, s.queue),
    ensures
        ({
            let all = session_incidents(order, s.queue, s.confirmed_results, now);
            &&& forall|i: int| 0 <= i < all.len() ==> is_due(s, now, #[trigger] all[i])
            &&& forall|k: Seq<char>| #[trigger]
                s.queue.contains_key(k) && worn_out(s.queue[k], now) && noteworthy(s, s.queue[k])
                    ==> has_note(all, s.queue[k], now)
        }),
{
    lemma_incidents(s, now, order);
    assert forall|k: Seq<char>| #[trigger] s.queue.contains_key(k) implies order.contains(k) by {}
}

// Lobbies

/// Whether a lobby's match has gone on for more than ten minutes.
pub open spec fn match_is_over(l: KohLobbyModel, now: Timestamp) -> bool {
    l.current is Some && older(now, l.current->0.started_at, 600)
}

/// Whether a member stays through a sweep: they play, or were seen within the last
/// minute.
pub open spec fn stays(l: KohLobbyModel, m: LobbyMemberModel, now: Timestamp) -> bool {
    ||| !match_is_over(l, now) && l.current is Some && (l.current->0.host == m.player_id
        || l.current->0.join == m.player_id)
    ||| !older(now, m.last_seen, 60)
}

/// Who is left once several players have gone.
proof fn lemma_members_left(l: KohLobbyModel, players: Seq<Seq<char>>, now: Timestamp)
    ensures
        forall|m: LobbyMemberModel| #[trigger]
            all_left(l, players, now).members.contains(m) <==> l.members.contains(m)
                && !players.contains(m.player_id),
    decreases players.len(),
{
    if players.len() > 0 {
        let rest = players.drop_last();
        let p = players.last();
        lemma_members_left(l, rest, now);
        let before = all_left(l, rest, now);
        let after = all_left(l, players, now);
        assert(after == left(before, p, now));
        assert(after.members == members_without(before.members, p));
        let stay = |m: LobbyMemberModel| m.player_id != p;
        lemma_filter(before.members, stay);
        assert forall|m: LobbyMemberModel| #[trigger]
            after.members.contains(m) <==> l.members.contains(m) && !players.contains(
                m.player_id,
            ) by {
            assert(after.members.contains(m) <==> before.members.contains(m) && stay(m));
            if players.contains(m.player_id) {
                let i = choose|i: int| 0 <= i < players.len() && players[i] == m.player_id;
                if i < rest.len() {
                    assert(rest[i] == m.player_id);
                }
            }
            if rest.contains(m.player_id) {
                let i = choose|i: int| 0 <= i < rest.len() && rest[i] == m.player_id;
                assert(players[i] == m.player_id);
            }
            if m.player_id == p {
                assert(players[players.len() - 1] == m.player_id);
            }
        }
    }
}

/// Who is left of a lobby before its ready check is looked at.
proof fn lemma_who_stays(l: KohLobbyModel, now: Timestamp)
    requires
        lobby_in_order(l),
    ensures
        ({
            let free = unstuck(l, now);
            let gone = all_left(free, idle_players(free, now), now);
            &&& forall|m: LobbyMemberModel| #[trigger]
                gone.members.contains(m) <==> l.members.contains(m) && stays(l, m, now)
            &&& lobby_sound(gone)
            &&& gone.current == free.current
        }),
{
    let free = unstuck(l, now);
    let p = |m: LobbyMemberModel| idle(free, m, now);
    let players = idle_players(free, now);
    let kept = free.members.filter(p);
    lemma_filter(free.members, p);
    if l.current is Some {
        lemma_older(now, l.current->0.started_at, 600);
    }
    assert(stuck(l, now) == match_is_over(l, now));
    lemma_members_left(free, players, now);
    lemma_all_left(free, players, now);
    assert forall|i: int| 0 <= i < players.len() implies !plays(
        free,
        #[trigger] players[i],
    ) by {
        assert(players[i] == kept[i].player_id);
        assert(kept.contains(kept[i]));
    }
    lemma_all_left_current(free, players, now);
    let gone = all_left(free, players, now);
    assert forall|m: LobbyMemberModel| #[trigger] gone.members.contains(m) <==> l.members.contains(
        m,
    ) && stays(l, m, now) by {
        lemma_older(now, m.last_seen, 60);
        assert(idle(free, m, now) == !stays(l, m, now));
        if l.members.contains(m) {
            if !stays(l, m, now) {
                assert(kept.contains(m));
                let i = choose|i: int| 0 <= i < kept.len() && kept[i] == m;
                assert(players[i] == m.player_id);
            }
            if players.contains(m.player_id) {
                let i = choose|i: int| 0 <= i < players.len() && players[i] == m.player_id;
                assert(kept.contains(kept[i]));
                let a = choose|a: int| 0 <= a < l.members.len() && l.members[a] == m;
                let b = choose|b: int| 0 <= b < l.members.len() && l.members[b] == kept[i];
                assert(a == b);
            }
        }
    }
}

/// Whether a member of a lobby is the one of before, except that they may watch
/// now.
pub open spec fn same_member(a: LobbyMemberModel, b: LobbyMemberModel) -> bool {
    b == a || b == (LobbyMemberModel { role: LobbyRole::Spectating, ..a })
}

/// Whether a member is still there.
pub open spec fn is_kept(m: LobbyMemberModel, members: Seq<LobbyMemberModel>) -> bool {
    exists|j: int| 0 <= j < members.len() && same_member(m, #[trigger] members[j])
}

/// Whether a member was there before.
pub open spec fn was_there(members: Seq<LobbyMemberModel>, m: LobbyMemberModel) -> bool {
    exists|i: int| 0 <= i < members.len() && same_member(#[trigger] members[i], m)
}

/// Looking at a ready check changes nobody but the challenger.
proof fn lemma_checked_members(l: KohLobbyModel, now: Timestamp)
    ensures
        ({
            let out = pending_checked(l, now);
            &&& out.members.len() == l.members.len()
            &&& forall|j: int|
                0 <= j < l.members.len() ==> same_member(
                    #[trigger] l.members[j],
                    #[trigger] out.members[j],
                )
            &&& out.current == l.current
            &&& out == (KohLobbyModel {
                members: out.members,
                queue: out.queue,
                pending: out.pending,
                last_activity: out.last_activity,
                ..l
            })
        }),
{
    if l.pending is Some {
        lemma_seat(l.members, l.pending->0.challenger, 0);
    }
}

/// Nothing but the rotation of a lobby changes while players leave.
proof fn lemma_left_frame(l: KohLobbyModel, players: Seq<Seq<char>>, now: Timestamp)
    ensures
        ({
            let out = all_left(l, players, now);
            out == (KohLobbyModel {
                members: out.members,
                queue: out.queue,
                pending: out.pending,
                current: out.current,
                last_activity: out.last_activity,
                ..l
            })
        }),
    decreases players.len(),
{
    if players.len() > 0 {
        lemma_left_frame(l, players.drop_last(), now);
    }
}

/// A sweep ends a lobby's match that has run out, and no other. Members who are
/// neither playing nor were seen for a minute are gone, and the others stay; a
/// lobby whose members are all gone is closed, with its screenshot.
pub proof fn silent_members_are_dropped(
    s: StateModel,
    now: Timestamp,
    lobby_id: Seq<char>,
)
    requires
        s.koh_lobbies.contains_key(lobby_id),
        lobby_in_order(s.koh_lobbies[lobby_id]),
    ensures
        ({
            let after = lobbies_swept(s, now);
            let l = s.koh_lobbies[lobby_id];
            let out = after.koh_lobbies[lobby_id];
            let closed = forall|i: int|
                0 <= i < l.members.len() ==> !stays(l, #[trigger] l.members[i], now);
            &&& after.koh_lobbies.contains_key(lobby_id) <==> !closed
            &&& after.lobby_thumbs.contains_key(lobby_id) <==> s.lobby_thumbs.contains_key(
                lobby_id,
            ) && !closed
            &&& !closed ==> {
                &&& out.current == if match_is_over(l, now) {
                    None
                } else {
                    l.current
                }
                &&& forall|i: int|
                    0 <= i < l.members.len() ==> (stays(l, #[trigger] l.members[i], now)
                        <==> is_kept(l.members[i], out.members))
                &&& forall|j: int|
                    0 <= j < out.members.len() ==> was_there(l.members, #[trigger] out.members[j])
                &&& out == (KohLobbyModel {
                    members: out.members,
                    queue: out.queue,
                    pending: out.pending,
                    current: out.current,
                    last_activity: out.last_activity,
                    ..l
                })
            }
        }),
{
    let l = s.koh_lobbies[lobby_id];
    let free = unstuck(l, now);
    let players = idle_players(free, now);
    let gone = all_left(free, players, now);
    let checked = pending_checked(gone, now);
    let out = lobby_swept(l, now);
    lemma_who_stays(l, now);
    lemma_left_frame(free, players, now);
    lemma_checked_members(gone, now);
    assert(out.members == checked.members);
    if l.current is Some {
        lemma_older(now, l.current->0.started_at, 600);
    }
    assert forall|i: int| 0 <= i < l.members.len() implies (stays(l, #[trigger] l.members[i], now)
        <==> is_kept(l.members[i], out.members)) by {
        let m = l.members[i];
        assert(l.members.contains(m));
        if stays(l, m, now) {
            assert(gone.members.contains(m));
            let j = choose|j: int| 0 <= j < gone.members.len() && gone.members[j] == m;
            assert(same_member(gone.members[j], checked.members[j]));
            assert(same_member(m, out.members[j]));
        }
        if is_kept(m, out.members) {
            let j = choose|j: int| 0 <= j < out.members.len() && same_member(
                m,
                #[trigger] out.members[j],
            );
            let o = gone.members[j];
            assert(same_member(o, checked.members[j]));
            assert(gone.members.contains(o));
            assert(l.members.contains(o) && stays(l, o, now));
            let a = choose|a: int| 0 <= a < l.members.len() && l.members[a] == o;
            assert(l.members[a].player_id == l.members[i].player_id);
            assert(a == i);
        }
    }
    assert forall|j: int| 0 <= j < out.members.len() implies was_there(
        l.members,
        #[trigger] out.members[j],
    ) by {
        let o = gone.members[j];
        assert(same_member(o, checked.members[j]));
        assert(gone.members.contains(o));
        let a = choose|a: int| 0 <= a < l.members.len() && l.members[a] == o;
        assert(same_member(l.members[a], out.members[j]));
    }
    if forall|i: int| 0 <= i < l.members.len() ==> !stays(l, #[trigger] l.members[i], now) {
        if out.members.len() > 0 {
            let o = gone.members[0];
            assert(gone.members.contains(o));
            let a = choose|a: int| 0 <= a < l.members.len() && l.members[a] == o;
            assert(stays(l, l.members[a], now));
        }
    } else {
        let i = choose|i: int| 0 <= i < l.members.len() && stays(l, #[trigger] l.members[i], now);
        assert(is_kept(l.members[i], out.members));
    }
}

/// A lobby in which everyone was seen within the last minute, no match has run out
/// and no ready check has, is left alone.
pub proof fn lively_lobbies_are_left_alone(s: StateModel, now: Timestamp, lobby_id: Seq<char>)
    requires
        s.koh_lobbies.contains_key(lobby_id),
        ({
            let l = s.koh_lobbies[lobby_id];
            &&& lobby_in_order(l) && l.members.len() > 0
            &&& !match_is_over(l, now)
            &&& l.pending matches Some(p) ==> now.nanos <= p.deadline.nanos
            &&& forall|i: int|
                0 <= i < l.members.len() ==> !older(
                    now,
                    (#[trigger] l.members[i]).last_seen,
                    60,
                )
        }),
    ensures
        lobbies_swept(s, now).koh_lobbies.contains_key(lobby_id),
        lobbies_swept(s, now).koh_lobbies[lobby_id] == s.koh_lobbies[lobby_id],
{
    let l = s.koh_lobbies[lobby_id];
    if l.current is Some {
        lemma_older(now, l.current->0.started_at, 600);
    }
    let p = |m: LobbyMemberModel| idle(l, m, now);
    lemma_filter(l.members, p);
    let kept = l.members.filter(p);
    if kept.len() > 0 {
        let m = kept[0];
        assert(kept.contains(m));
        let i = choose|i: int| 0 <= i < l.members.len() && l.members[i] == m;
        lemma_older(now, l.members[i].last_seen, 60);
    }
    assert(idle_players(l, now) =~= Seq::empty());
    assert(all_left(l, idle_players(l, now), now) == l);
    lemma_filter(l.queue, |id: Seq<char>| is_member(l.members, id));
    assert(line_of_members(l.queue, l.members) == l.queue);
}

/// A member who has fallen silent is dropped as if they had left.
pub proof fn falling_silent_is_leaving(
    s: StateModel,
    now: Timestamp,
    lobby_id: Seq<char>,
    i: int,
)
    requires
        of_a_clock(now),
        s.koh_lobbies.contains_key(lobby_id),
        ({
            let l = s.koh_lobbies[lobby_id];
            &&& lobby_in_order(l) && 0 <= i < l.members.len() && l.members.len() > 1
            &&& !match_is_over(l, now)
            &&& l.pending matches Some(p) ==> now.nanos <= p.deadline.nanos
            &&& forall|j: int|
                0 <= j < l.members.len() ==> (stays(l, #[trigger] l.members[j], now) <==> j != i)
        }),
    ensures
        lobbies_swept(s, now).koh_lobbies.contains_key(lobby_id),
        lobbies_swept(s, now).koh_lobbies[lobby_id] == lobby_left(
            s,
            s.koh_lobbies[lobby_id].members[i].player_id,
            lobby_id,
            now,
        ).koh_lobbies[lobby_id],
{
    let l = s.koh_lobbies[lobby_id];
    let player = l.members[i].player_id;
    if l.current is Some {
        lemma_older(now, l.current->0.started_at, 600);
    }
    let p = |m: LobbyMemberModel| idle(l, m, now);
    lemma_filter(l.members, p);
    let kept = l.members.filter(p);
    let players = idle_players(l, now);
    assert forall|j: int| 0 <= j < l.members.len() implies p(#[trigger] l.members[j]) == (j
        == i) by {
        lemma_older(now, l.members[j].last_seen, 60);
        assert(stays(l, l.members[j], now) <==> j != i);
    }
    assert(kept =~= seq![l.members[i]]) by {
        lemma_only_one(l.members, p, i);
    }
    assert(players =~= seq![player]);
    assert(all_left(l, players, now) == left(l, player, now)) by {
        assert(players.drop_last() =~= Seq::empty());
        assert(all_left(l, players.drop_last(), now) == l);
    }
    let gone = left(l, player, now);
    lemma_all_left(l, players, now);
    leaving_frees_the_other(s, player, lobby_id, now);
    let stay = |m: LobbyMemberModel| m.player_id != player;
    lemma_filter(l.members, stay);
    let other = if i == 0 {
        1int
    } else {
        0
    };
    assert(l.members[other].player_id != player) by {
        if i == 0 {
            assert(l.members[0].player_id != l.members[1].player_id);
        } else {
            assert(l.members[0].player_id != l.members[i].player_id);
        }
    }
    assert(l.members.contains(l.members[other]));
    assert(l.members.filter(stay).contains(l.members[other]));
    assert(gone.members == l.members.filter(stay));
    assert(gone.members.len() > 0);
    assert(pending_checked(gone, now) == gone);
    lemma_filter(gone.queue, |id: Seq<char>| is_member(gone.members, id));
    assert(line_of_members(gone.queue, gone.members) == gone.queue);
}

/// A filter that only one element passes.
proof fn lemma_only_one<A>(s: Seq<A>, p: spec_fn(A) -> bool, i: int)
    requires
        0 <= i < s.len(),
        forall|j: int| 0 <= j < s.len() ==> p(#[trigger] s[j]) == (j == i),
    ensures
        s.filter(p) == seq![s[i]],
    decreases s.len(),
{
    reveal(Seq::filter);
    let rest = s.drop_last();
    assert(p(s[s.len() - 1]) == (s.len() - 1 == i));
    assert forall|j: int| 0 <= j < rest.len() implies p(#[trigger] rest[j]) == (j == i) by {
        assert(rest[j] == s[j]);
    }
    if i < rest.len() {
        lemma_only_one(rest, p, i);
    } else {
        lemma_filter(rest, p);
        assert(rest.filter(p).len() == 0) by {
            if rest.filter(p).len() > 0 {
                let x = rest.filter(p)[0];
                assert(rest.filter(p).contains(x));
                let j = choose|j: int| 0 <= j < rest.len() && rest[j] == x;
                assert(p(rest[j]));
            }
        }
        assert(s.filter(p) =~= seq![s[i]]);
    }
}

/// A full sweep treats lobbies and screenshots as a sweep of the lobbies alone.
pub proof fn lobbies_are_swept_for_themselves(s: StateModel, now: Timestamp, order: Seq<Seq<char>>)
    ensures
        swept(s, now, order).koh_lobbies == lobbies_swept(s, now).koh_lobbies,
        swept(s, now, order).lobby_thumbs == lobbies_swept(s, now).lobby_thumbs,
{
    let before = challenges_swept(rows_swept(queue_swept(s, now, order), now), now);
    assert(before.koh_lobbies == s.koh_lobbies && before.lobby_thumbs == s.lobby_thumbs);
    assert(lobbies_swept(before, now).koh_lobbies =~= lobbies_swept(s, now).koh_lobbies);
    assert(lobbies_swept(before, now).lobby_thumbs =~= lobbies_swept(s, now).lobby_thumbs);
}

/// The lobbies that a sweep closes, those in which nobody stays, are counted.
pub proof fn closed_lobbies_are_counted(
    s: StateModel,
    now: Timestamp,
    order: Seq<Seq<char>>,
    n: SweepCounts,
)
    requires
        forall|id: Seq<char>| #[trigger]
            s.koh_lobbies.contains_key(id) ==> lobby_in_order(s.koh_lobbies[id]),
        drops(s, now, order, n),
    ensures
        n.lobbies == s.koh_lobbies.dom().filter(
            |id: Seq<char>|
                forall|i: int|
                    0 <= i < s.koh_lobbies[id].members.len() ==> !stays(
                        s.koh_lobbies[id],
                        #[trigger] s.koh_lobbies[id].members[i],
                        now,
                    ),
        ).len(),
{
    let p = |id: Seq<char>|
        forall|i: int|
            0 <= i < s.koh_lobbies[id].members.len() ==> !stays(
                s.koh_lobbies[id],
                #[trigger] s.koh_lobbies[id].members[i],
                now,
            );
    let closed = lobbies_closed(s, now);
    assert forall|id: Seq<char>| closed.contains(id) == (s.koh_lobbies.contains_key(id) && p(
        id,
    )) by {
        if s.koh_lobbies.contains_key(id) {
            silent_members_are_dropped(s, now, id);
        }
    }
    assert(closed =~= s.koh_lobbies.dom().filter(p));
}

/// What a sweep has dropped in all is the sum of what it has dropped of each kind.
pub proof fn the_total_counts_each_kind(n: SweepCounts)
    ensures
        n.sum() == n.queue + n.spar + n.confirmed + n.pending + n.spectator + n.lobby_presence
            + n.lobby_chat + n.challenges + n.oauth + n.lobbies,
{
}

} // verus!
