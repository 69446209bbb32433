//! Dropping what has grown old.

use dashmap::DashMap;
use vstd::prelude::*;
use crate::challenges::{awaits, Challenges};
use crate::incidents::{
    lfg_no_pair, matched_no_result, note_no_pair, note_no_result, ServerIncident,
    ServerIncidentModel,
};
use crate::koh::{advance_lobby, advanced, check_pending, pending_checked};
use crate::lobbies::{end_sessions, is_playing, left, match_sessions, plays, remove_lobby_member};
use crate::lobby_requests::{keep_or_close, kept_or_closed};
use crate::models::{
    Challenge, ChallengeModel, ConfirmedResult, ConfirmedResultModel, KohLobby, KohLobbyModel,
    LobbyChatEntry, LobbyChatEntryModel, LobbyMemberModel, LobbyPresence, LobbyPresenceModel,
    OAuthState, OAuthStateModel, PendingResult, PendingResultModel, QueueEntry, QueueEntryModel,
    SparRoom, SparRoomModel, SpectatorFrame, SpectatorFrameModel,
};
use crate::sessions::{cancel_one, cancel_session, cancelled, Sessions};
use crate::state::{AppState, StateModel};
use crate::table::{self, lists_keys, queue_rows, Stored};
use crate::text::{begins_with, joined, same_text};
use crate::time::{elapsed_secs, Timestamp};

verus! {

/// How long a session is kept, in seconds.
pub const QUEUE_TTL_SECS: i64 = 300;

/// How long a cancelled session is kept, in seconds.
pub const CANCELLED_TTL_SECS: i64 = 30;

/// How long a spar room is kept, in seconds.
pub const SPAR_ROOM_TTL_SECS: i64 = 600;

/// How long a confirmed result is kept, in seconds.
pub const CONFIRMED_RESULT_TTL_SECS: i64 = 600;

/// How long a result that one player has reported is kept, in seconds.
pub const PENDING_RESULT_TTL_SECS: i64 = 60;

/// How long a spectator frame is kept, in seconds.
pub const SPECTATOR_FRAME_TTL_SECS: i64 = 90;

/// How long a heartbeat in the general lobby is kept, in seconds.
pub const LOBBY_PRESENCE_TTL_SECS: i64 = 90;

/// How long a chat message is kept, in seconds.
pub const LOBBY_CHAT_TTL_SECS: i64 = 1800;

/// How long a challenge is kept, in seconds.
pub const CHALLENGE_TTL_SECS: i64 = 120;

/// How long the nonce of a login is kept, in seconds.
pub const OAUTH_STATE_TTL_SECS: i64 = 300;

/// How long a lobby member may stay silent, in seconds.
pub const LOBBY_MEMBER_TTL_SECS: i64 = 60;

/// How long a lobby's match may go without a result, in seconds.
pub const LOBBY_MATCH_TTL_SECS: i64 = 600;

// Keys met so far

/// The keys in a sequence of which `p` holds.
pub open spec fn met(order: Seq<Seq<char>>, p: spec_fn(Seq<char>) -> bool) -> Set<Seq<char>> {
    Set::new(|k: Seq<char>| order.contains(k) && p(k))
}

/// Meeting one more key.
proof fn lemma_met_more(order: Seq<Seq<char>>, i: int, p: spec_fn(Seq<char>) -> bool)
    requires
        0 <= i < order.len(),
    ensures
        met(order.take(i), p).finite(),
        met(order.take(i), p).len() <= i,
        met(order.take(i + 1), p) == if p(order[i]) {
            met(order.take(i), p).insert(order[i])
        } else {
            met(order.take(i), p)
        },
        met(order.take(i), p).contains(order[i]) == (p(order[i]) && order.take(i).contains(order[i])),
{
    lemma_met_finite(order.take(i), p);
    let a = met(order.take(i), p);
    let b = met(order.take(i + 1), p);
    assert(order.take(i + 1) == order.take(i).push(order[i]));
    assert forall|k: Seq<char>| #[trigger] order.take(i + 1).contains(k) == (order.take(i).contains(k)
        || k == order[i]) by {
        if order.take(i).contains(k) {
            let j = choose|j: int| 0 <= j < order.take(i).len() && order.take(i)[j] == k;
            assert(order.take(i + 1)[j] == k);
        }
        assert(order.take(i + 1)[i] == order[i]);
    }
    assert forall|k: Seq<char>| #[trigger] b.contains(k) == (a.contains(k) || (k == order[i] && p(k))) by {
        assert(order.take(i + 1).contains(k) == (order.take(i).contains(k) || k == order[i]));
    }
    if p(order[i]) {
        assert(b =~= a.insert(order[i]));
    } else {
        assert(b =~= a);
    }
}

/// What a sequence holds is finite, and no more than the sequence is long.
proof fn lemma_met_finite(order: Seq<Seq<char>>, p: spec_fn(Seq<char>) -> bool)
    ensures
        met(order, p).finite(),
        met(order, p).len() <= order.len(),
{
    vstd::seq_lib::seq_to_set_is_finite(order);
    order.lemma_cardinality_of_set();
    assert(met(order, p).subset_of(order.to_set()));
    vstd::set_lib::lemma_len_subset(met(order, p), order.to_set());
}

/// A key of a listing is not met twice.
proof fn lemma_new_key(order: Seq<Seq<char>>, i: int)
    requires
        order.no_duplicates(),
        0 <= i < order.len(),
    ensures
        !order.take(i).contains(order[i]),
{
    if order.take(i).contains(order[i]) {
        let j = choose|j: int| 0 <= j < order.take(i).len() && order.take(i)[j] == order[i];
        assert(order[j] == order[i]);
    }
}

// Rows that only grow old

/// A record that is dropped once it is old.
pub trait Aged: View + Sized {
    /// Since when a record has been kept.
    spec fn since(row: Self::V) -> Timestamp;

    /// Since when this record has been kept.
    fn kept_since(&self) -> (t: Timestamp)
        ensures
            t == Self::since(self@),
    ;
}

impl Aged for SparRoom {
    open spec fn since(row: SparRoomModel) -> Timestamp {
        row.created_at
    }

    fn kept_since(&self) -> (t: Timestamp) {
        self.created_at
    }
}

impl Aged for ConfirmedResult {
    open spec fn since(row: ConfirmedResultModel) -> Timestamp {
        row.committed_at
    }

    fn kept_since(&self) -> (t: Timestamp) {
        self.committed_at
    }
}

impl Aged for PendingResult {
    open spec fn since(row: PendingResultModel) -> Timestamp {
        row.reported_at
    }

    fn kept_since(&self) -> (t: Timestamp) {
        self.reported_at
    }
}

impl Aged for SpectatorFrame {
    open spec fn since(row: SpectatorFrameModel) -> Timestamp {
        row.updated_at
    }

    fn kept_since(&self) -> (t: Timestamp) {
        self.updated_at
    }
}

impl Aged for LobbyPresence {
    open spec fn since(row: LobbyPresenceModel) -> Timestamp {
        row.last_seen
    }

    fn kept_since(&self) -> (t: Timestamp) {
        self.last_seen
    }
}

impl Aged for LobbyChatEntry {
    open spec fn since(row: LobbyChatEntryModel) -> Timestamp {
        row.created_at
    }

    fn kept_since(&self) -> (t: Timestamp) {
        self.created_at
    }
}

impl Aged for OAuthState {
    open spec fn since(row: OAuthStateModel) -> Timestamp {
        row.issued_at
    }

    fn kept_since(&self) -> (t: Timestamp) {
        self.issued_at
    }
}

/// The keys of the records that are more than `ttl` seconds old.
pub open spec fn expired<R: Aged>(
    rows: Map<Seq<char>, R::V>,
    now: Timestamp,
    ttl: i64,
) -> Set<Seq<char>> {
    Set::new(
        |k: Seq<char>| rows.contains_key(k) && elapsed_secs(now, R::since(rows[k])) > ttl,
    )
}

/// The records that are not more than `ttl` seconds old.
pub open spec fn unexpired<R: Aged>(
    rows: Map<Seq<char>, R::V>,
    now: Timestamp,
    ttl: i64,
) -> Map<Seq<char>, R::V> {
    rows.remove_keys(expired::<R>(rows, now, ttl))
}

/// Drops the records that are more than `ttl` seconds old, and counts them.
pub(crate) fn reap<R: Stored + Aged>(table: &mut DashMap<String, R>, now: Timestamp, ttl: i64) -> (count:
    usize)
    ensures
        R::rows(*final(table)) == unexpired::<R>(R::rows(*old(table)), now, ttl),
        expired::<R>(R::rows(*old(table)), now, ttl).finite(),
        count == expired::<R>(R::rows(*old(table)), now, ttl).len(),
{
    let keys = table::keys(table);
    let ghost order = keys.deep_view();
    let ghost rows = R::rows(*table);
    let ghost p = |k: Seq<char>| expired::<R>(rows, now, ttl).contains(k);
    let mut count: usize = 0;
    let mut i: usize = 0;
    proof {
        lemma_met_finite(order.take(0), p);
        assert(met(order.take(0), p) =~= Set::empty());
        assert(rows.remove_keys(met(order.take(0), p)) =~= rows);
    }
    while i < keys.len()
        invariant
            i <= keys.len(),
            order == keys.deep_view(),
            lists_keys(order, rows),
            p == (|k: Seq<char>| expired::<R>(rows, now, ttl).contains(k)),
            R::rows(*table) == rows.remove_keys(met(order.take(i as int), p)),
            count <= i,
            count == met(order.take(i as int), p).len(),
        decreases keys.len() - i,
    {
        let key = keys[i].as_str();
        proof {
            assert(order[i as int] == key@);
            assert(order.contains(key@));
            lemma_new_key(order, i as int);
            lemma_met_more(order, i as int, p);
        }
        if let Some(row) = table::get(table, key) {
            if now.secs_since(row.kept_since()) > ttl {
                let _ = table::remove(table, key);
                count += 1;
                proof {
                    assert(p(key@));
                    assert(R::rows(*table) =~= rows.remove_keys(met(order.take(i + 1), p)));
                }
            }
        }
        i += 1;
    }
    proof {
        assert(order.take(order.len() as int) == order);
        lemma_met_finite(order, p);
        assert(met(order, p) =~= expired::<R>(rows, now, ttl));
    }
    count
}

// Sessions

/// Whether a session is dropped: it is old, or it is cancelled and not new.
pub open spec fn stale_session(e: QueueEntryModel, now: Timestamp) -> bool {
    elapsed_secs(now, e.queued_at) > QUEUE_TTL_SECS || (e.cancelled && elapsed_secs(now, e.queued_at)
        > CANCELLED_TTL_SECS)
}

/// The keys in `order` of sessions that are dropped.
pub open spec fn stale_keys(order: Seq<Seq<char>>, queue: Sessions, now: Timestamp) -> Set<
    Seq<char>,
> {
    met(order, |k: Seq<char>| queue.contains_key(k) && stale_session(queue[k], now))
}

/// Whether a result of a room has been confirmed.
pub open spec fn has_result(
    results: Map<Seq<char>, ConfirmedResultModel>,
    room_id: Seq<char>,
) -> bool {
    results.contains_key(room_id) || exists|r: Seq<char>|
        #[trigger] results.contains_key(r) && (room_id + "#"@).is_prefix_of(r)
}

/// What is worth noting about a session that is dropped: that its match came to
/// nothing, or that it found no opponent.
pub open spec fn session_incident(
    e: QueueEntryModel,
    results: Map<Seq<char>, ConfirmedResultModel>,
    now: Timestamp,
) -> Option<ServerIncidentModel> {
    if e.cancelled {
        None
    } else if e.match_info is None {
        Some(lfg_no_pair(e, now))
    } else if has_result(results, e.match_info->0.room_id) {
        None
    } else {
        Some(matched_no_result(e, now))
    }
}

/// What is worth noting about the sessions that are dropped, in the order in
/// which they are met.
pub open spec fn session_incidents(
    order: Seq<Seq<char>>,
    queue: Sessions,
    results: Map<Seq<char>, ConfirmedResultModel>,
    now: Timestamp,
) -> Seq<ServerIncidentModel>
    decreases order.len(),
{
    if order.len() == 0 {
        Seq::empty()
    } else {
        let earlier = session_incidents(order.drop_last(), queue, results, now);
        let k = order.last();
        if !order.drop_last().contains(k) && queue.contains_key(k) && stale_session(queue[k], now) {
            match session_incident(queue[k], results, now) {
                Some(incident) => earlier.push(incident),
                None => earlier,
            }
        } else {
            earlier
        }
    }
}

/// The players' current sessions without those that are dropped.
pub open spec fn pointers_kept(
    pointers: Map<Seq<char>, Seq<char>>,
    queue: Sessions,
    dropped: Set<Seq<char>>,
) -> Map<Seq<char>, Seq<char>> {
    Map::new(
        |p: Seq<char>|
            pointers.contains_key(p) && !(dropped.contains(pointers[p])
                && queue[pointers[p]].discord_id == p),
        |p: Seq<char>| pointers[p],
    )
}

/// The state once the sessions in `order` that are old are gone.
pub open spec fn queue_swept(s: StateModel, now: Timestamp, order: Seq<Seq<char>>) -> StateModel {
    let dropped = stale_keys(order, s.queue, now);
    StateModel {
        queue: s.queue.remove_keys(dropped),
        player_sessions: pointers_kept(s.player_sessions, s.queue, dropped),
        ..s
    }
}

/// Whether a result of a room has been confirmed.
fn is_confirmed(state: &AppState, room_id: &str) -> (res: bool)
    ensures
        res == has_result(state@.confirmed_results, room_id@),
{
    if table::contains_key(&state.confirmed_results, room_id) {
        return true;
    }
    let prefix = joined(room_id, "#");
    let keys = table::keys(&state.confirmed_results);
    let ghost rows = state@.confirmed_results;
    let mut i: usize = 0;
    while i < keys.len()
        invariant
            i <= keys.len(),
            rows == state@.confirmed_results,
            lists_keys(keys.deep_view(), rows),
            prefix@ == room_id@ + "#"@,
            forall|j: int| 0 <= j < i ==> !prefix@.is_prefix_of(#[trigger] keys.deep_view()[j]),
        decreases keys.len() - i,
    {
        if begins_with(keys[i].as_str(), prefix.as_str()) {
            proof {
                let r = keys.deep_view()[i as int];
                assert(keys.deep_view().contains(r));
                assert(rows.contains_key(r) && (room_id@ + "#"@).is_prefix_of(r));
            }
            return true;
        }
        i += 1;
    }
    proof {
        assert forall|r: Seq<char>| #[trigger] rows.contains_key(r) implies !(room_id@
            + "#"@).is_prefix_of(r) by {
            assert(keys.deep_view().contains(r));
        }
    }
    false
}

/// What is worth noting about a session that is dropped.
fn note_session(state: &AppState, e: &QueueEntry, now: Timestamp) -> (incident: Option<
    ServerIncident,
>)
    ensures
        incident.deep_view() == session_incident(e@, state@.confirmed_results, now),
{
    if e.cancelled {
        return None;
    }
    match &e.match_info {
        Some(info) => if is_confirmed(state, info.room_id.as_str()) {
            None
        } else {
            Some(note_no_result(e, now))
        },
        None => Some(note_no_pair(e, now)),
    }
}

/// Drops a session, and the pointer to it.
fn drop_session(state: &mut AppState, key: &str, e: &QueueEntry)
    requires
        old(state)@.queue.contains_key(key@),
        e@ == old(state)@.queue[key@],
    ensures
        final(state)@ == (StateModel {
            queue: old(state)@.queue.remove(key@),
            player_sessions: if old(state)@.player_sessions.contains_key(e@.discord_id)
                && old(state)@.player_sessions[e@.discord_id] == key@ {
                old(state)@.player_sessions.remove(e@.discord_id)
            } else {
                old(state)@.player_sessions
            },
            ..old(state)@
        }),
{
    let _ = table::remove(&mut state.queue, key);
    if let Some(sid) = table::get(&state.player_sessions, e.discord_id.as_str()) {
        if same_text(sid.as_str(), key) {
            let _ = table::remove(&mut state.player_sessions, e.discord_id.as_str());
        }
    }
}

/// Drops the sessions in `order` that are old, counts them, and gives what is
/// worth noting about them.
fn sweep_queue(
    state: &mut AppState,
    now: Timestamp,
    order: &Vec<String>,
) -> (res: (usize, Vec<ServerIncident>))
    ensures
        final(state)@ == queue_swept(old(state)@, now, order.deep_view()),
        res.0 == stale_keys(order.deep_view(), old(state)@.queue, now).len(),
        res.1.deep_view() == session_incidents(
            order.deep_view(),
            old(state)@.queue,
            old(state)@.confirmed_results,
            now,
        ),
{
    let ghost s = state@;
    let ghost keys = order.deep_view();
    let ghost p = |k: Seq<char>| s.queue.contains_key(k) && stale_session(s.queue[k], now);
    let mut count: usize = 0;
    let mut incidents: Vec<ServerIncident> = Vec::new();
    let mut i: usize = 0;
    proof {
        lemma_met_finite(keys.take(0), p);
        assert(met(keys.take(0), p) =~= Set::empty());
        assert(s.queue.remove_keys(met(keys.take(0), p)) =~= s.queue);
        assert(pointers_kept(s.player_sessions, s.queue, met(keys.take(0), p))
            =~= s.player_sessions);
        assert(incidents.deep_view() == session_incidents(
            keys.take(0),
            s.queue,
            s.confirmed_results,
            now,
        ));
    }
    while i < order.len()
        invariant
            i <= order.len(),
            keys == order.deep_view(),
            p == (|k: Seq<char>| s.queue.contains_key(k) && stale_session(s.queue[k], now)),
            count <= i,
            count == met(keys.take(i as int), p).len(),
            state@ == (StateModel {
                queue: s.queue.remove_keys(met(keys.take(i as int), p)),
                player_sessions: pointers_kept(
                    s.player_sessions,
                    s.queue,
                    met(keys.take(i as int), p),
                ),
                ..s
            }),
            incidents.deep_view() == session_incidents(
                keys.take(i as int),
                s.queue,
                s.confirmed_results,
                now,
            ),
        decreases order.len() - i,
    {
        let key = order[i].as_str();
        let ghost done = met(keys.take(i as int), p);
        let ghost more = met(keys.take(i + 1), p);
        proof {
            assert(keys[i as int] == key@);
            lemma_met_more(keys, i as int, p);
            assert(keys.take(i + 1).drop_last() == keys.take(i as int));
            assert(keys.take(i + 1).last() == key@);
        }
        if let Some(e) = table::get(&state.queue, key) {
            let age = now.secs_since(e.queued_at);
            if age > QUEUE_TTL_SECS || (e.cancelled && age > CANCELLED_TTL_SECS) {
                let ghost before = incidents.deep_view();
                let noted = note_session(state, &e, now);
                if let Some(incident) = noted {
                    let ghost model = incident@;
                    incidents.push(incident);
                    proof {
                        assert(incidents.deep_view() == before.push(model));
                    }
                }
                drop_session(state, key, &e);
                count += 1;
                proof {
                    assert(p(key@));
                    assert(!done.contains(key@));
                    assert(!keys.take(i as int).contains(key@));
                    assert(state@.queue =~= s.queue.remove_keys(more));
                    assert(state@.player_sessions =~= pointers_kept(
                        s.player_sessions,
                        s.queue,
                        more,
                    ));
                }
            } else {
                proof {
                    assert(!p(key@));
                }
            }
        } else {
            proof {
                if p(key@) {
                    assert(done.contains(key@));
                    assert(more =~= done);
                }
            }
        }
        i += 1;
    }
    proof {
        assert(keys.take(keys.len() as int) == keys);
    }
    (count, incidents)
}

// Challenges

impl Aged for Challenge {
    open spec fn since(row: ChallengeModel) -> Timestamp {
        row.created_at
    }

    fn kept_since(&self) -> (t: Timestamp) {
        self.created_at
    }
}

/// The table with the sessions cancelled that belong to one of these challenges.
pub open spec fn called_back(queue: Sessions, challenges: Challenges) -> Sessions {
    Map::new(
        |k: Seq<char>| queue.contains_key(k),
        |k: Seq<char>|
            if awaits(challenges, k) {
                cancelled(queue[k])
            } else {
                queue[k]
            },
    )
}

/// The state once the old challenges are gone; their challengers' sessions are
/// cancelled.
pub open spec fn challenges_swept(s: StateModel, now: Timestamp) -> StateModel {
    let dropped = expired::<Challenge>(s.challenges, now, CHALLENGE_TTL_SECS);
    StateModel {
        queue: called_back(s.queue, s.challenges.restrict(dropped)),
        challenges: s.challenges.remove_keys(dropped),
        ..s
    }
}

/// One more challenge that is gone cancels the session that belongs to it.
proof fn lemma_called_back_more(
    queue: Sessions,
    fewer: Challenges,
    more: Challenges,
    key: Seq<char>,
    c: ChallengeModel,
)
    requires
        more =~= fewer.insert(key, c),
        !fewer.contains_key(key),
    ensures
        called_back(queue, more) == cancel_one(called_back(queue, fewer), c.challenger_session_id),
{
    let sid = c.challenger_session_id;
    assert(more.contains_key(key) && more[key] == c);
    assert forall|k: Seq<char>| awaits(more, k) == (awaits(fewer, k) || k == sid) by {
        if awaits(fewer, k) {
            let w = choose|w: Seq<char>|
                #[trigger] fewer.contains_key(w) && fewer[w].challenger_session_id == k;
            assert(more.contains_key(w) && more[w].challenger_session_id == k);
        }
        if awaits(more, k) {
            let w = choose|w: Seq<char>|
                #[trigger] more.contains_key(w) && more[w].challenger_session_id == k;
            if w != key {
                assert(fewer.contains_key(w) && fewer[w].challenger_session_id == k);
            }
        }
    }
    assert(called_back(queue, more) =~= cancel_one(called_back(queue, fewer), sid));
}

/// Drops the old challenges, and counts them.
fn sweep_challenges(state: &mut AppState, now: Timestamp) -> (count: usize)
    ensures
        final(state)@ == challenges_swept(old(state)@, now),
        count == expired::<Challenge>(old(state)@.challenges, now, CHALLENGE_TTL_SECS).len(),
{
    let keys = table::keys(&state.challenges);
    let ghost s = state@;
    let ghost order = keys.deep_view();
    let ghost old_ones = expired::<Challenge>(s.challenges, now, CHALLENGE_TTL_SECS);
    let ghost p = |k: Seq<char>| old_ones.contains(k);
    let mut count: usize = 0;
    let mut i: usize = 0;
    proof {
        lemma_met_finite(order.take(0), p);
        assert(met(order.take(0), p) =~= Set::empty());
        assert(s.challenges.remove_keys(met(order.take(0), p)) =~= s.challenges);
        assert(called_back(s.queue, s.challenges.restrict(met(order.take(0), p))) =~= s.queue);
    }
    while i < keys.len()
        invariant
            i <= keys.len(),
            order == keys.deep_view(),
            lists_keys(order, s.challenges),
            old_ones == expired::<Challenge>(s.challenges, now, CHALLENGE_TTL_SECS),
            p == (|k: Seq<char>| old_ones.contains(k)),
            count <= i,
            count == met(order.take(i as int), p).len(),
            state@ == (StateModel {
                queue: called_back(s.queue, s.challenges.restrict(met(order.take(i as int), p))),
                challenges: s.challenges.remove_keys(met(order.take(i as int), p)),
                ..s
            }),
        decreases keys.len() - i,
    {
        let key = keys[i].as_str();
        let ghost done = met(order.take(i as int), p);
        let ghost more = met(order.take(i + 1), p);
        proof {
            assert(order[i as int] == key@);
            assert(order.contains(key@));
            lemma_new_key(order, i as int);
            lemma_met_more(order, i as int, p);
        }
        if let Some(c) = table::get(&state.challenges, key) {
            if now.secs_since(c.created_at) > CHALLENGE_TTL_SECS {
                let _ = table::remove(&mut state.challenges, key);
                cancel_session(&mut state.queue, c.challenger_session_id.as_str());
                count += 1;
                proof {
                    assert(p(key@));
                    lemma_called_back_more(
                        s.queue,
                        s.challenges.restrict(done),
                        s.challenges.restrict(more),
                        key@,
                        c@,
                    );
                    assert(state@.challenges =~= s.challenges.remove_keys(more));
                }
            }
        }
        i += 1;
    }
    proof {
        assert(order.take(order.len() as int) == order);
        assert(met(order, p) =~= old_ones);
    }
    count
}

// Lobbies

/// Whether a lobby's match has gone on too long without a result.
pub open spec fn stuck(l: KohLobbyModel, now: Timestamp) -> bool {
    l.current is Some && elapsed_secs(now, l.current->0.started_at) > LOBBY_MATCH_TTL_SECS
}

/// The lobby without a match that has gone on too long.
pub open spec fn unstuck(l: KohLobbyModel, now: Timestamp) -> KohLobbyModel {
    if stuck(l, now) {
        KohLobbyModel { current: None, ..l }
    } else {
        l
    }
}

/// Whether a member has been silent too long. Whoever plays is not expected to
/// be heard.
pub open spec fn idle(l: KohLobbyModel, m: LobbyMemberModel, now: Timestamp) -> bool {
    !plays(l, m.player_id) && elapsed_secs(now, m.last_seen) > LOBBY_MEMBER_TTL_SECS
}

/// The members who have been silent too long.
pub open spec fn idle_players(l: KohLobbyModel, now: Timestamp) -> Seq<Seq<char>> {
    l.members.filter(|m: LobbyMemberModel| idle(l, m, now)).map_values(
        |m: LobbyMemberModel| m.player_id,
    )
}

/// A lobby that some players have left, one after the other.
pub open spec fn all_left(
    l: KohLobbyModel,
    players: Seq<Seq<char>>,
    now: Timestamp,
) -> KohLobbyModel
    decreases players.len(),
{
    if players.len() == 0 {
        l
    } else {
        left(all_left(l, players.drop_last(), now), players.last(), now)
    }
}

/// A lobby once it has been swept: a match that is stuck is abandoned, silent
/// members have left, and an expired ready check is dealt with.
pub open spec fn lobby_swept(l: KohLobbyModel, now: Timestamp) -> KohLobbyModel {
    let free = unstuck(l, now);
    advanced(pending_checked(all_left(free, idle_players(free, now), now), now), now)
}

/// The sessions that end when a lobby is swept.
pub open spec fn sessions_swept(l: KohLobbyModel, now: Timestamp) -> Set<Seq<char>> {
    if stuck(l, now) {
        match_sessions(l)
    } else {
        Set::empty()
    }
}

/// The members who have been silent too long.
fn find_idle(lobby: &KohLobby, now: Timestamp) -> (players: Vec<String>)
    ensures
        players.deep_view() == idle_players(lobby@, now),
        forall|i: int|
            0 <= i < players.deep_view().len() ==> !plays(lobby@, #[trigger] players.deep_view()[i]),
{
    let ghost all = lobby@.members;
    let ghost p = |m: LobbyMemberModel| idle(lobby@, m, now);
    let ghost f = |m: LobbyMemberModel| m.player_id;
    let mut players: Vec<String> = Vec::new();
    let mut i: usize = 0;
    assert(players.deep_view() == all.take(0).filter(p).map_values(f));
    while i < lobby.members.len()
        invariant
            i <= lobby.members.len(),
            all == lobby@.members,
            p == (|m: LobbyMemberModel| idle(lobby@, m, now)),
            f == (|m: LobbyMemberModel| m.player_id),
            players.deep_view() == all.take(i as int).filter(p).map_values(f),
            forall|j: int|
                0 <= j < players.deep_view().len() ==> !plays(
                    lobby@,
                    #[trigger] players.deep_view()[j],
                ),
        decreases lobby.members.len() - i,
    {
        let m = &lobby.members[i];
        let ghost before = players.deep_view();
        proof {
            reveal(Seq::filter);
            assert(all.take(i + 1).drop_last() == all.take(i as int));
            assert(all.take(i + 1).last() == all[i as int]);
            assert(all.take(i as int).filter(p).push(all[i as int]).map_values(f) == all.take(
                i as int,
            ).filter(p).map_values(f).push(f(all[i as int])));
        }
        if !is_playing(lobby, m.player_id.as_str()) && now.secs_since(m.last_seen)
            > LOBBY_MEMBER_TTL_SECS {
            players.push(m.player_id.clone());
            proof {
                assert(players.deep_view() == before.push(f(all[i as int])));
            }
        }
        i += 1;
    }
    assert(all.take(all.len() as int) == all);
    players
}

/// Sweeps a lobby.
fn sweep_lobby(queue: &mut DashMap<String, QueueEntry>, lobby: &mut KohLobby, now: Timestamp)
    ensures
        final(lobby)@ == lobby_swept(old(lobby)@, now),
        queue_rows(*final(queue)) == queue_rows(*old(queue)).remove_keys(
            sessions_swept(old(lobby)@, now),
        ),
{
    let is_stuck = match &lobby.current {
        Some(c) => now.secs_since(c.started_at) > LOBBY_MATCH_TTL_SECS,
        None => false,
    };
    if is_stuck {
        if let Some(c) = lobby.current.take() {
            end_sessions(queue, &c);
        }
    } else {
        proof {
            assert(queue_rows(*queue).remove_keys(Set::empty()) =~= queue_rows(*queue));
        }
    }
    let ghost free = lobby@;
    let ghost kept = queue_rows(*queue);
    let players = find_idle(lobby, now);
    let ghost gone = players.deep_view();
    let mut i: usize = 0;
    assert(gone.take(0) == Seq::<Seq<char>>::empty());
    while i < players.len()
        invariant
            i <= players.len(),
            gone == players.deep_view(),
            forall|j: int| 0 <= j < gone.len() ==> !plays(free, #[trigger] gone[j]),
            lobby@ == all_left(free, gone.take(i as int), now),
            lobby@.current == free.current,
            queue_rows(*queue) == kept,
        decreases players.len() - i,
    {
        proof {
            assert(gone.take(i + 1).drop_last() == gone.take(i as int));
            assert(gone.take(i + 1).last() == gone[i as int]);
            assert(!plays(free, gone[i as int]));
            assert(kept.remove_keys(Set::empty()) =~= kept);
        }
        remove_lobby_member(queue, lobby, players[i].as_str(), now);
        i += 1;
    }
    assert(gone.take(gone.len() as int) == gone);
    check_pending(lobby, now);
    advance_lobby(lobby, now);
}

/// Whether a lobby is left without members by the sweep.
pub open spec fn closes(s: StateModel, id: Seq<char>, now: Timestamp) -> bool {
    s.koh_lobbies.contains_key(id) && lobby_swept(s.koh_lobbies[id], now).members.len() == 0
}

/// The sessions that end when the lobbies in `ids` are swept.
pub open spec fn ended_in(s: StateModel, ids: Set<Seq<char>>, now: Timestamp) -> Set<Seq<char>> {
    Set::new(
        |sid: Seq<char>|
            exists|id: Seq<char>|
                ids.contains(id) && #[trigger] s.koh_lobbies.contains_key(id) && sessions_swept(
                    s.koh_lobbies[id],
                    now,
                ).contains(sid),
    )
}

/// The state once the lobbies in `ids` have been swept; those without members are
/// closed.
pub open spec fn lobbies_swept_in(s: StateModel, ids: Set<Seq<char>>, now: Timestamp) -> StateModel {
    StateModel {
        queue: s.queue.remove_keys(ended_in(s, ids, now)),
        koh_lobbies: Map::new(
            |id: Seq<char>|
                s.koh_lobbies.contains_key(id) && !(ids.contains(id) && closes(s, id, now)),
            |id: Seq<char>|
                if ids.contains(id) {
                    lobby_swept(s.koh_lobbies[id], now)
                } else {
                    s.koh_lobbies[id]
                },
        ),
        lobby_thumbs: s.lobby_thumbs.remove_keys(
            Set::new(|id: Seq<char>| ids.contains(id) && closes(s, id, now)),
        ),
        ..s
    }
}

/// The state once every lobby has been swept.
pub open spec fn lobbies_swept(s: StateModel, now: Timestamp) -> StateModel {
    lobbies_swept_in(s, s.koh_lobbies.dom(), now)
}

/// The lobbies that the sweep closes.
pub open spec fn lobbies_closed(s: StateModel, now: Timestamp) -> Set<Seq<char>> {
    Set::new(|id: Seq<char>| closes(s, id, now))
}

/// Sweeping one more lobby.
proof fn lemma_swept_more(s: StateModel, ids: Set<Seq<char>>, id: Seq<char>, now: Timestamp)
    requires
        s.koh_lobbies.contains_key(id),
        !ids.contains(id),
    ensures
        ({
            let before = lobbies_swept_in(s, ids, now);
            let l = s.koh_lobbies[id];
            let ended = StateModel {
                queue: before.queue.remove_keys(sessions_swept(l, now)),
                ..before
            };
            &&& before.koh_lobbies.contains_key(id)
            &&& before.koh_lobbies[id] == l
            &&& lobbies_swept_in(s, ids.insert(id), now) == kept_or_closed(
                ended,
                id,
                lobby_swept(l, now),
            )
        }),
{
    let before = lobbies_swept_in(s, ids, now);
    let l = s.koh_lobbies[id];
    let ended = StateModel { queue: before.queue.remove_keys(sessions_swept(l, now)), ..before };
    let after = lobbies_swept_in(s, ids.insert(id), now);
    let goal = kept_or_closed(ended, id, lobby_swept(l, now));
    assert forall|sid: Seq<char>| ended_in(s, ids.insert(id), now).contains(sid) == (ended_in(
        s,
        ids,
        now,
    ).contains(sid) || sessions_swept(l, now).contains(sid)) by {
        if ended_in(s, ids, now).contains(sid) {
            let w = choose|w: Seq<char>|
                ids.contains(w) && #[trigger] s.koh_lobbies.contains_key(w) && sessions_swept(
                    s.koh_lobbies[w],
                    now,
                ).contains(sid);
            assert(ids.insert(id).contains(w) && s.koh_lobbies.contains_key(w));
        }
        if ended_in(s, ids.insert(id), now).contains(sid) {
            let w = choose|w: Seq<char>|
                ids.insert(id).contains(w) && #[trigger] s.koh_lobbies.contains_key(w)
                    && sessions_swept(s.koh_lobbies[w], now).contains(sid);
            if w != id {
                assert(ids.contains(w) && s.koh_lobbies.contains_key(w));
            }
        }
        if sessions_swept(l, now).contains(sid) {
            assert(ids.insert(id).contains(id) && s.koh_lobbies.contains_key(id));
        }
    }
    assert(after.queue =~= goal.queue);
    assert(after.koh_lobbies =~= goal.koh_lobbies);
    assert(after.lobby_thumbs =~= goal.lobby_thumbs);
}

/// Sweeps every lobby at a point in time, and counts those that are closed.
pub fn sweep_lobbies_at(state: &mut AppState, now: Timestamp) -> (closed: usize)
    ensures
        final(state)@ == lobbies_swept(old(state)@, now),
        closed == lobbies_closed(old(state)@, now).len(),
{
    let keys = table::keys(&state.koh_lobbies);
    let ghost s = state@;
    let ghost order = keys.deep_view();
    let ghost every = |k: Seq<char>| true;
    let ghost p = |k: Seq<char>| closes(s, k, now);
    let mut closed: usize = 0;
    let mut i: usize = 0;
    proof {
        lemma_met_finite(order.take(0), p);
        assert(met(order.take(0), p) =~= Set::empty());
        let none = met(order.take(0), every);
        assert(none =~= Set::empty());
        let start = lobbies_swept_in(s, none, now);
        assert(start.queue =~= s.queue);
        assert(start.koh_lobbies =~= s.koh_lobbies);
        assert(start.lobby_thumbs =~= s.lobby_thumbs);
    }
    while i < keys.len()
        invariant
            i <= keys.len(),
            order == keys.deep_view(),
            lists_keys(order, s.koh_lobbies),
            every == (|k: Seq<char>| true),
            p == (|k: Seq<char>| closes(s, k, now)),
            closed <= i,
            closed == met(order.take(i as int), p).len(),
            state@ == lobbies_swept_in(s, met(order.take(i as int), every), now),
        decreases keys.len() - i,
    {
        let id = keys[i].as_str();
        let ghost done = met(order.take(i as int), every);
        proof {
            assert(order[i as int] == id@);
            assert(order.contains(id@));
            lemma_new_key(order, i as int);
            lemma_met_more(order, i as int, every);
            lemma_met_more(order, i as int, p);
            lemma_swept_more(s, done, id@, now);
        }
        if let Some(mut lobby) = table::get(&state.koh_lobbies, id) {
            sweep_lobby(&mut state.queue, &mut lobby, now);
            if keep_or_close(state, id, lobby) {
                closed += 1;
            }
        }
        i += 1;
    }
    proof {
        assert(order.take(order.len() as int) == order);
        assert(met(order, every) =~= s.koh_lobbies.dom());
        assert(met(order, p) =~= lobbies_closed(s, now));
    }
    closed
}

/// Sweeps every lobby: silent members leave, matches that are stuck are
/// abandoned, and lobbies without members are closed. Gives the number of those.
pub fn sweep_lobbies(state: &mut AppState) -> (closed: usize)
    ensures
        exists|now: Timestamp|
            now.nanos >= 0 && final(state)@ == #[trigger] lobbies_swept(old(state)@, now) && closed
                == lobbies_closed(old(state)@, now).len(),
{
    let now = Timestamp::now();
    sweep_lobbies_at(state, now)
}

// The whole sweep

/// How much a sweep has dropped.
#[derive(Debug, Clone, Copy, PartialEq, Eq, Structural)]
pub struct SweepCounts {
    pub queue: usize,
    pub spar: usize,
    pub confirmed: usize,
    pub pending: usize,
    pub spectator: usize,
    pub lobby_presence: usize,
    pub lobby_chat: usize,
    pub challenges: usize,
    pub oauth: usize,
    pub lobbies: usize,
}

impl SweepCounts {
    /// How much has been dropped in all.
    pub open spec fn sum(self) -> int {
        self.queue + self.spar + self.confirmed + self.pending + self.spectator
            + self.lobby_presence + self.lobby_chat + self.challenges + self.oauth + self.lobbies
    }

    /// How much has been dropped in all.
    pub fn total(&self) -> (total: usize)
        requires
            self.sum() <= usize::MAX,
        ensures
            total == self.sum(),
    {
        self.queue + self.spar + self.confirmed + self.pending + self.spectator
            + self.lobby_presence + self.lobby_chat + self.challenges + self.oauth + self.lobbies
    }
}

/// The state once the rows that only grow old are gone, challenges aside.
pub open spec fn rows_swept(s: StateModel, now: Timestamp) -> StateModel {
    StateModel {
        spar_rooms: unexpired::<SparRoom>(s.spar_rooms, now, SPAR_ROOM_TTL_SECS),
        confirmed_results: unexpired::<ConfirmedResult>(
            s.confirmed_results,
            now,
            CONFIRMED_RESULT_TTL_SECS,
        ),
        pending_results: unexpired::<PendingResult>(
            s.pending_results,
            now,
            PENDING_RESULT_TTL_SECS,
        ),
        spectator_frames: unexpired::<SpectatorFrame>(
            s.spectator_frames,
            now,
            SPECTATOR_FRAME_TTL_SECS,
        ),
        lobby_presence: unexpired::<LobbyPresence>(s.lobby_presence, now, LOBBY_PRESENCE_TTL_SECS),
        lobby_chat: unexpired::<LobbyChatEntry>(s.lobby_chat, now, LOBBY_CHAT_TTL_SECS),
        oauth_states: unexpired::<OAuthState>(s.oauth_states, now, OAUTH_STATE_TTL_SECS),
        ..s
    }
}

/// The state once everything old is gone, where sessions are met in `order`.
pub open spec fn swept(s: StateModel, now: Timestamp, order: Seq<Seq<char>>) -> StateModel {
    lobbies_swept(challenges_swept(rows_swept(queue_swept(s, now, order), now), now), now)
}

/// How much a sweep drops, where sessions are met in `order`.
pub open spec fn drops(
    s: StateModel,
    now: Timestamp,
    order: Seq<Seq<char>>,
    counts: SweepCounts,
) -> bool {
    &&& counts.queue == stale_keys(order, s.queue, now).len()
    &&& counts.spar == expired::<SparRoom>(s.spar_rooms, now, SPAR_ROOM_TTL_SECS).len()
    &&& counts.confirmed == expired::<ConfirmedResult>(
        s.confirmed_results,
        now,
        CONFIRMED_RESULT_TTL_SECS,
    ).len()
    &&& counts.pending == expired::<PendingResult>(
        s.pending_results,
        now,
        PENDING_RESULT_TTL_SECS,
    ).len()
    &&& counts.spectator == expired::<SpectatorFrame>(
        s.spectator_frames,
        now,
        SPECTATOR_FRAME_TTL_SECS,
    ).len()
    &&& counts.lobby_presence == expired::<LobbyPresence>(
        s.lobby_presence,
        now,
        LOBBY_PRESENCE_TTL_SECS,
    ).len()
    &&& counts.lobby_chat == expired::<LobbyChatEntry>(
        s.lobby_chat,
        now,
        LOBBY_CHAT_TTL_SECS,
    ).len()
    &&& counts.challenges == expired::<Challenge>(s.challenges, now, CHALLENGE_TTL_SECS).len()
    &&& counts.oauth == expired::<OAuthState>(s.oauth_states, now, OAUTH_STATE_TTL_SECS).len()
    &&& counts.lobbies == lobbies_closed(s, now).len()
}

/// Drops everything that is old at a point in time, where sessions are met in
/// `order`; counts it, and gives what is worth noting.
pub fn sweep_once_at(
    state: &mut AppState,
    now: Timestamp,
    order: &Vec<String>,
) -> (res: (SweepCounts, Vec<ServerIncident>))
    ensures
        final(state)@ == swept(old(state)@, now, order.deep_view()),
        drops(old(state)@, now, order.deep_view(), res.0),
        res.1.deep_view() == session_incidents(
            order.deep_view(),
            old(state)@.queue,
            old(state)@.confirmed_results,
            now,
        ),
{
    let ghost s = state@;
    let (queue, incidents) = sweep_queue(state, now, order);
    let spar = reap(&mut state.spar_rooms, now, SPAR_ROOM_TTL_SECS);
    let confirmed = reap(&mut state.confirmed_results, now, CONFIRMED_RESULT_TTL_SECS);
    let pending = reap(&mut state.pending_results, now, PENDING_RESULT_TTL_SECS);
    let spectator = reap(&mut state.spectator_frames, now, SPECTATOR_FRAME_TTL_SECS);
    let lobby_presence = reap(&mut state.lobby_presence, now, LOBBY_PRESENCE_TTL_SECS);
    let lobby_chat = reap(&mut state.lobby_chat, now, LOBBY_CHAT_TTL_SECS);
    let oauth = reap(&mut state.oauth_states, now, OAUTH_STATE_TTL_SECS);
    proof {
        assert(state@ == rows_swept(queue_swept(s, now, order.deep_view()), now));
    }
    let challenges = sweep_challenges(state, now);
    let ghost before = state@;
    let lobbies = sweep_lobbies_at(state, now);
    proof {
        assert(lobbies_closed(before, now) =~= lobbies_closed(s, now));
    }
    (
        SweepCounts {
            queue,
            spar,
            confirmed,
            pending,
            spectator,
            lobby_presence,
            lobby_chat,
            challenges,
            oauth,
            lobbies,
        },
        incidents,
    )
}

/// Drops everything that is old, counts it, and gives what is worth noting.
pub fn sweep_once(state: &mut AppState) -> (res: (SweepCounts, Vec<ServerIncident>))
    ensures
        exists|now: Timestamp, order: Seq<Seq<char>>|
            now.nanos >= 0 && lists_keys(order, old(state)@.queue) && final(state)@
                == #[trigger] swept(old(state)@, now, order) && drops(
                old(state)@,
                now,
                order,
                res.0,
            ) && res.1.deep_view() == session_incidents(
                order,
                old(state)@.queue,
                old(state)@.confirmed_results,
                now,
            ),
{
    let now = Timestamp::now();
    let order = table::keys(&state.queue);
    sweep_once_at(state, now, &order)
}

} // verus!
