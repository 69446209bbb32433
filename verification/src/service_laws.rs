//! What holds of the rest of the service: rooms and challenges are used once, what
//! is pushed is what is read, listings are determined, refused requests change
//! nothing, and sweeping drops what is old and nothing else.

use vstd::prelude::*;
use crate::auth::{
    given, guest_email, guest_id, login_started, nonce_check, nonce_refusal, nonce_used,
};
use crate::challenges::{challenge_accepted, challenge_declined, involves};
use crate::discord::NoticeModel;
use crate::error::AppErrorModel;
use crate::lobby_laws::lemma_filter;
use crate::lobby_requests::thumb_put;
use crate::models::{
    AcceptChallengeRequestModel, ClaimsModel, GuestAuthRequestModel, JoinRoomRequestModel,
    JoinRoomResponseModel, LfgRequestModel, LiveMatchModel, LobbyRoomSummary, LobbyRoomSummaryModel,
    MatchStatus, MatchStatusResponseModel, SpectatorPushRequestModel, SpectatorStateResponseModel,
};
use crate::order_laws::{challenge_in_order, in_order};
use crate::queue::{lfg, session_refusal, session_status};
use crate::ranking::{lemma_sorted_unique, sorted_rows, Ranked};
use crate::rooms::{public_rooms, room_joined, room_summary};
use crate::sessions::endpoint;
use crate::spectators::{
    first_of_each_room, frame_pushed, frame_shown, has_room, lemma_rooms_kept, live, live_feed,
    live_match, live_rows, opponent_name, scored, scored_first,
};
use crate::state::StateModel;
use crate::sweeper::{queue_swept, rows_swept, stale_session};
use crate::table::lists_keys;
use crate::time::Timestamp;

verus! {

// Used once

/// A room that someone has joined cannot be joined again.
pub proof fn a_room_is_joined_once(
    s: StateModel,
    player: ClaimsModel,
    room_id: Seq<char>,
    req: JoinRoomRequestModel,
    session_id: Seq<char>,
    match_room_id: Seq<char>,
    now: Timestamp,
    other: ClaimsModel,
    other_req: JoinRoomRequestModel,
    other_session_id: Seq<char>,
    other_room_id: Seq<char>,
    later: Timestamp,
)
    requires
        room_joined(s, player, room_id, req, session_id, match_room_id, now).1 is Ok,
        endpoint(other_req.stun_endpoint),
    ensures
        ({
            let after = room_joined(s, player, room_id, req, session_id, match_room_id, now).0;
            room_joined(
                after,
                other,
                room_id,
                other_req,
                other_session_id,
                other_room_id,
                later,
            ) == (
                after,
                Err::<(JoinRoomResponseModel, NoticeModel), AppErrorModel>(
                    AppErrorModel::NotFound("Room not found or already joined"@),
                ),
            )
        }),
{
}

/// Once a challenge is accepted, neither player has a part in any challenge.
pub proof fn whoever_plays_has_no_challenges(
    s: StateModel,
    player: ClaimsModel,
    challenge_id: Seq<char>,
    req: AcceptChallengeRequestModel,
    session_id: Seq<char>,
    room_id: Seq<char>,
    now: Timestamp,
    k: Seq<char>,
)
    requires
        challenge_accepted(s, player, challenge_id, req, session_id, room_id, now).1 is Ok,
    ensures
        ({
            let after = challenge_accepted(
                s,
                player,
                challenge_id,
                req,
                session_id,
                room_id,
                now,
            ).0;
            &&& !after.challenges.contains_key(challenge_id)
            &&& after.challenges.contains_key(k) ==> s.challenges.contains_key(k)
                && after.challenges[k] == s.challenges[k] && !involves(
                after.challenges[k],
                s.challenges[challenge_id].challenger_discord_id,
                player.sub,
            )
        }),
{
}

/// A challenge that is declined is gone, and the challenger sees the session
/// cancelled.
pub proof fn a_declined_challenger_waits_no_longer(
    s: StateModel,
    player: Seq<char>,
    challenge_id: Seq<char>,
)
    requires
        in_order(s),
        challenge_declined(s, player, challenge_id).1 is Ok,
        s.queue.contains_key(s.challenges[challenge_id].challenger_session_id),
    ensures
        ({
            let after = challenge_declined(s, player, challenge_id).0;
            let c = s.challenges[challenge_id];
            &&& !after.challenges.contains_key(challenge_id)
            &&& session_status(after, c.challenger_discord_id, c.challenger_session_id) == Ok::<
                MatchStatusResponseModel,
                AppErrorModel,
            >(MatchStatusResponseModel { status: MatchStatus::Cancelled, match_info: None })
        }),
{
    assert(challenge_in_order(s, challenge_id));
}

/// A login gets past the check of its nonce only with one that the service has
/// issued and still keeps.
pub proof fn a_login_needs_its_nonce(s: StateModel, nonce: Option<Seq<char>>)
    ensures
        nonce_refusal(nonce_check(s, nonce)) is None <==> given(nonce)
            && s.oauth_states.contains_key(nonce->0),
{
}

/// A nonce lets one login through from its start on, and is refused after that.
pub proof fn a_nonce_is_good_once(s: StateModel, nonce: Seq<char>, now: Timestamp)
    requires
        nonce.len() > 0,
    ensures
        nonce_refusal(nonce_check(login_started(s, nonce, now), Some(nonce))) is None,
        nonce_refusal(
            nonce_check(nonce_used(login_started(s, nonce, now), Some(nonce)), Some(nonce)),
        ) is Some,
{
}

/// Guests who give the same address are the same player, whatever they call
/// themselves and whatever they play on.
pub proof fn one_address_is_one_player(
    a: GuestAuthRequestModel,
    b: GuestAuthRequestModel,
    name_a: Seq<char>,
    name_b: Seq<char>,
)
    requires
        guest_email(a) is Some,
        guest_email(a) == guest_email(b),
    ensures
        guest_id(a, name_a) == guest_id(b, name_b),
{
}

/// Guests without an address who play on the same device are the same player.
pub proof fn one_device_is_one_player(
    a: GuestAuthRequestModel,
    b: GuestAuthRequestModel,
    name_a: Seq<char>,
    name_b: Seq<char>,
)
    requires
        guest_email(a) is None,
        guest_email(b) is None,
        given(a.device_id),
        a.device_id == b.device_id,
    ensures
        guest_id(a, name_a) == guest_id(b, name_b),
{
}

// Pushed and read

/// The frame that a player pushes is the one that spectators see.
pub proof fn pushed_frames_are_shown(
    s: StateModel,
    player: Seq<char>,
    session_id: Seq<char>,
    req: SpectatorPushRequestModel,
    now: Timestamp,
    order: Seq<Seq<char>>,
)
    requires
        session_refusal(s, player, session_id) is None,
    ensures
        frame_shown(frame_pushed(s, player, session_id, req, now, order).0, session_id) == Some(
            SpectatorStateResponseModel {
                savestate: req.savestate,
                inputs: req.inputs,
                frame: req.frame,
                score_p1: req.score_p1,
                score_p2: req.score_p2,
                p1_username: s.queue[session_id].username,
                p2_username: opponent_name(s, s.queue[session_id], order),
            },
        ),
{
}

/// Nobody but the player whose session it is changes what spectators see of it.
pub proof fn only_the_owner_pushes_frames(
    s: StateModel,
    player: Seq<char>,
    session_id: Seq<char>,
    req: SpectatorPushRequestModel,
    now: Timestamp,
    order: Seq<Seq<char>>,
    k: Seq<char>,
)
    requires
        !s.queue.contains_key(k) || s.queue[k].discord_id != player,
    ensures
        frame_shown(frame_pushed(s, player, session_id, req, now, order).0, k) == frame_shown(s, k),
{
}

/// The screenshot that a player pushes is the one that is kept.
pub proof fn pushed_screenshots_are_kept(
    s: StateModel,
    player: Seq<char>,
    lobby_id: Seq<char>,
    bytes: Seq<u8>,
    now: Timestamp,
)
    requires
        thumb_put(s, player, lobby_id, bytes, now).1 is Ok,
    ensures
        ({
            let after = thumb_put(s, player, lobby_id, bytes, now).0;
            after.lobby_thumbs.contains_key(lobby_id) && after.lobby_thumbs[lobby_id].bytes == bytes
        }),
{
}

// Listings

/// Mapping over two listings of the same keys gives the same rows, each as often.
proof fn lemma_same_rows<M>(
    a: Seq<Seq<char>>,
    b: Seq<Seq<char>>,
    f: spec_fn(Seq<char>) -> M,
)
    requires
        a.no_duplicates(),
        b.no_duplicates(),
        forall|k: Seq<char>| a.contains(k) <==> #[trigger] b.contains(k),
    ensures
        a.map_values(f).to_multiset() == b.map_values(f).to_multiset(),
    decreases a.len(),
{
    broadcast use vstd::seq_lib::group_to_multiset_ensures;

    if a.len() == 0 {
        if b.len() > 0 {
            assert(b.contains(b[0]));
            assert(a.contains(b[0]));
        }
        assert(a.map_values(f) =~= b.map_values(f));
    } else {
        let k = a.last();
        assert(a.contains(a[a.len() - 1]));
        assert(b.contains(k));
        let i = choose|i: int| 0 <= i < b.len() && b[i] == k;
        let rest_a = a.drop_last();
        let rest_b = b.remove(i);
        assert forall|x: Seq<char>| rest_a.contains(x) <==> #[trigger] rest_b.contains(x) by {
            if rest_a.contains(x) {
                let j = choose|j: int| 0 <= j < rest_a.len() && rest_a[j] == x;
                assert(a[j] == x);
                assert(a.contains(x) && b.contains(x));
                let w = choose|w: int| 0 <= w < b.len() && b[w] == x;
                assert(w != i);
                if w < i {
                    assert(rest_b[w] == x);
                } else {
                    assert(rest_b[w - 1] == x);
                }
            }
            if rest_b.contains(x) {
                let j = choose|j: int| 0 <= j < rest_b.len() && rest_b[j] == x;
                let at = if j < i {
                    j
                } else {
                    j + 1
                };
                assert(0 <= at < b.len() && b[at] == x);
                assert(b.contains(b[at]));
                assert(b.contains(x));
                assert(a.contains(x));
                let w = choose|w: int| 0 <= w < a.len() && a[w] == x;
                assert(w != a.len() - 1);
                assert(rest_a[w] == x);
            }
        }
        assert(rest_a.no_duplicates());
        assert(rest_b.no_duplicates());
        lemma_same_rows(rest_a, rest_b, f);
        assert(a.map_values(f) =~= rest_a.map_values(f).push(f(k)));
        vstd::seq_lib::to_multiset_build(rest_a.map_values(f), f(k));
        assert(b.map_values(f).remove(i) =~= rest_b.map_values(f));
        assert(b.map_values(f) =~= rest_b.map_values(f).insert(i, f(k)));
        vstd::seq_lib::to_multiset_insert(rest_b.map_values(f), i, f(k));
    }
}

/// The listing of the public rooms is determined by the rooms: however they are
/// met, the same rows come in the same order.
pub proof fn the_listing_of_rooms_is_determined(
    s: StateModel,
    a: Seq<Seq<char>>,
    b: Seq<Seq<char>>,
    listed_a: Seq<LobbyRoomSummaryModel>,
    listed_b: Seq<LobbyRoomSummaryModel>,
)
    requires
        in_order(s),
        lists_keys(a, s.spar_rooms),
        lists_keys(b, s.spar_rooms),
        sorted_rows::<LobbyRoomSummary>(public_rooms(a, s), listed_a),
        sorted_rows::<LobbyRoomSummary>(public_rooms(b, s), listed_b),
    ensures
        listed_a == listed_b,
{
    let p = |k: Seq<char>| !s.spar_rooms[k].private;
    let f = |k: Seq<char>| room_summary(s.spar_rooms[k]);
    lemma_filter(a, p);
    lemma_filter(b, p);
    let (ka, kb) = (a.filter(p), b.filter(p));
    assert forall|k: Seq<char>| ka.contains(k) <==> #[trigger] kb.contains(k) by {
        assert(a.contains(k) == s.spar_rooms.contains_key(k));
        assert(b.contains(k) == s.spar_rooms.contains_key(k));
    }
    lemma_same_rows(ka, kb, f);
    assert(public_rooms(a, s) == ka.map_values(f));
    assert(public_rooms(b, s) == kb.map_values(f));
    let rows = ka.map_values(f);
    assert forall|x: LobbyRoomSummaryModel, y: LobbyRoomSummaryModel|
        rows.contains(x) && rows.contains(y) && #[trigger] LobbyRoomSummary::rank(x)
            == #[trigger] LobbyRoomSummary::rank(y) implies x == y by {
        let i = choose|i: int| 0 <= i < rows.len() && rows[i] == x;
        let j = choose|j: int| 0 <= j < rows.len() && rows[j] == y;
        assert(ka.contains(ka[i]) && ka.contains(ka[j]));
        assert(s.spar_rooms.contains_key(ka[i]) && s.spar_rooms.contains_key(ka[j]));
        assert(x.id == ka[i] && y.id == ka[j]);
    }
    lemma_sorted_unique::<LobbyRoomSummary>(rows, listed_a, listed_b);
}

/// Private rooms are not listed, and every public one is.
pub proof fn only_public_rooms_are_listed(
    s: StateModel,
    order: Seq<Seq<char>>,
    row: LobbyRoomSummaryModel,
)
    requires
        lists_keys(order, s.spar_rooms),
    ensures
        public_rooms(order, s).contains(row) <==> exists|k: Seq<char>|
            #[trigger] s.spar_rooms.contains_key(k) && !s.spar_rooms[k].private && row
                == room_summary(s.spar_rooms[k]),
{
    let p = |k: Seq<char>| !s.spar_rooms[k].private;
    let f = |k: Seq<char>| room_summary(s.spar_rooms[k]);
    lemma_filter(order, p);
    let kept = order.filter(p);
    let rows = public_rooms(order, s);
    assert(rows == kept.map_values(f));
    if rows.contains(row) {
        let i = choose|i: int| 0 <= i < rows.len() && rows[i] == row;
        assert(kept.contains(kept[i]));
        assert(order.contains(kept[i]) && p(kept[i]));
        assert(s.spar_rooms.contains_key(kept[i]));
    }
    if exists|k: Seq<char>|
        #[trigger] s.spar_rooms.contains_key(k) && !s.spar_rooms[k].private && row
            == room_summary(s.spar_rooms[k]) {
        let k = choose|k: Seq<char>|
            #[trigger] s.spar_rooms.contains_key(k) && !s.spar_rooms[k].private && row
                == room_summary(s.spar_rooms[k]);
        assert(order.contains(k) && p(k));
        assert(kept.contains(k));
        let i = choose|i: int| 0 <= i < kept.len() && kept[i] == k;
        assert(rows[i] == row);
    }
}

/// Each room has one row in the live feed.
pub proof fn each_room_is_shown_once(rows: Seq<LiveMatchModel>)
    ensures
        forall|i: int, j: int|
            0 <= i < j < first_of_each_room(rows).len() ==> (
            #[trigger] first_of_each_room(rows)[i]).room_id != (
            #[trigger] first_of_each_room(rows)[j]).room_id,
    decreases rows.len(),
{
    if rows.len() > 0 {
        let rest = rows.drop_last();
        let kept = first_of_each_room(rest);
        let out = first_of_each_room(rows);
        each_room_is_shown_once(rest);
        lemma_rooms_kept(rest, rows.last().room_id);
        assert forall|i: int, j: int| 0 <= i < j < out.len() implies (#[trigger] out[i]).room_id
            != (#[trigger] out[j]).room_id by {
            if j == kept.len() {
                assert(out[i] == kept[i]);
            } else {
                assert(out[i] == kept[i] && out[j] == kept[j]);
            }
        }
    }
}

/// What is kept of a sequence of rows is among them.
pub proof fn lemma_kept_rows(rows: Seq<LiveMatchModel>, m: LiveMatchModel)
    ensures
        first_of_each_room(rows).contains(m) ==> rows.contains(m),
    decreases rows.len(),
{
    if rows.len() > 0 && first_of_each_room(rows).contains(m) {
        let rest = rows.drop_last();
        let kept = first_of_each_room(rest);
        let out = first_of_each_room(rows);
        lemma_kept_rows(rest, m);
        let i = choose|i: int| 0 <= i < out.len() && out[i] == m;
        if i < kept.len() {
            assert(kept.contains(kept[i]));
            let j = choose|j: int| 0 <= j < rest.len() && rest[j] == m;
            assert(rows[j] == m);
        } else {
            assert(rows[rows.len() - 1] == m);
        }
    }
}

/// The rows that come later add nothing to a room that has one already.
proof fn lemma_first_rows_win(
    early: Seq<LiveMatchModel>,
    late: Seq<LiveMatchModel>,
    m: LiveMatchModel,
)
    requires
        first_of_each_room(early + late).contains(m),
        has_room(early, m.room_id),
    ensures
        early.contains(m),
    decreases late.len(),
{
    let rows = early + late;
    if late.len() == 0 {
        assert(rows == early);
        lemma_kept_rows(early, m);
    } else {
        let rest = early + late.drop_last();
        assert(rows.drop_last() == rest);
        assert(rows.last() == late.last());
        let kept = first_of_each_room(rest);
        let out = first_of_each_room(rows);
        assert(has_room(rest, m.room_id)) by {
            let i = choose|i: int|
                0 <= i < early.len() && (#[trigger] early[i]).room_id == m.room_id;
            assert(rest[i].room_id == m.room_id);
        }
        let i = choose|i: int| 0 <= i < out.len() && out[i] == m;
        if i < kept.len() {
            assert(kept.contains(kept[i]));
        } else {
            assert(m == late.last());
        }
        lemma_first_rows_win(early, late.drop_last(), m);
    }
}

/// The live feed shows every room in which a session is live, and shows it with a
/// score if either side has pushed one.
pub proof fn the_live_feed_is_complete(s: StateModel, order: Seq<Seq<char>>, k: Seq<char>)
    requires
        order.contains(k),
        live(s, k),
    ensures
        has_room(live_feed(order, s), live_match(s, k).room_id),
        scored(live_match(s, k)) ==> forall|m: LiveMatchModel|
            live_feed(order, s).contains(m) && m.room_id == live_match(s, k).room_id
                ==> #[trigger] scored(m),
{
    let p = |x: Seq<char>| live(s, x);
    let f = |x: Seq<char>| live_match(s, x);
    lemma_filter(order, p);
    let kept = order.filter(p);
    let rows = live_rows(order, s);
    assert(rows == kept.map_values(f));
    assert(kept.contains(k));
    let i = choose|i: int| 0 <= i < kept.len() && kept[i] == k;
    let row = live_match(s, k);
    assert(rows[i] == row);
    let yes = |m: LiveMatchModel| scored(m);
    let no = |m: LiveMatchModel| !scored(m);
    lemma_filter(rows, yes);
    lemma_filter(rows, no);
    let (with, without) = (rows.filter(yes), rows.filter(no));
    let sorted = scored_first(rows);
    assert(sorted == with + without);
    assert(rows.contains(row));
    if scored(row) {
        assert(with.contains(row));
        let j = choose|j: int| 0 <= j < with.len() && with[j] == row;
        assert(sorted[j] == row);
        assert(has_room(with, row.room_id));
        assert forall|m: LiveMatchModel|
            live_feed(order, s).contains(m) && m.room_id == row.room_id implies #[trigger] scored(
            m,
        ) by {
            lemma_first_rows_win(with, without, m);
            assert(with.contains(m));
        }
    } else {
        assert(without.contains(row));
        let j = choose|j: int| 0 <= j < without.len() && without[j] == row;
        assert(sorted[with.len() + j] == row);
    }
    assert(has_room(sorted, row.room_id));
    lemma_rooms_kept(sorted, row.room_id);
}

// Refusals

/// A refused request for an opponent changes nothing.
pub proof fn a_refused_search_changes_nothing(
    s: StateModel,
    player: ClaimsModel,
    req: LfgRequestModel,
    session_id: Seq<char>,
    room_id: Seq<char>,
    now: Timestamp,
    order: Seq<Seq<char>>,
)
    requires
        lfg(s, player, req, session_id, room_id, now, order).1 is Err,
    ensures
        lfg(s, player, req, session_id, room_id, now, order).0 == s,
{
}

/// Whoever is told that a room is not theirs to join, or not of their build,
/// leaves it open for others.
pub proof fn a_refused_join_leaves_the_room_open(
    s: StateModel,
    player: ClaimsModel,
    room_id: Seq<char>,
    req: JoinRoomRequestModel,
    session_id: Seq<char>,
    match_room_id: Seq<char>,
    now: Timestamp,
)
    requires
        room_joined(s, player, room_id, req, session_id, match_room_id, now).1 matches Err(e)
            && e is BadRequest,
    ensures
        room_joined(s, player, room_id, req, session_id, match_room_id, now).0 == s,
{
}

/// Whoever is told that a challenge is not theirs to accept, or not of their
/// build, leaves it open for its target.
pub proof fn a_refused_acceptance_leaves_the_challenge_open(
    s: StateModel,
    player: ClaimsModel,
    challenge_id: Seq<char>,
    req: AcceptChallengeRequestModel,
    session_id: Seq<char>,
    room_id: Seq<char>,
    now: Timestamp,
)
    requires
        challenge_accepted(s, player, challenge_id, req, session_id, room_id, now).1 matches Err(e)
            && (e is BadRequest || e is Unauthorized),
    ensures
        challenge_accepted(s, player, challenge_id, req, session_id, room_id, now).0 == s,
{
}

/// Nobody learns where another player's session stands.
pub proof fn sessions_are_shown_to_their_owners_only(
    s: StateModel,
    player: Seq<char>,
    session_id: Seq<char>,
)
    requires
        s.queue.contains_key(session_id),
        s.queue[session_id].discord_id != player,
    ensures
        session_status(s, player, session_id) == Err::<MatchStatusResponseModel, AppErrorModel>(
            AppErrorModel::Unauthorized("Session does not belong to you"@),
        ),
{
}

// Sweeping

/// A sweep drops a session exactly if it is old, or cancelled and not new.
pub proof fn sweeping_drops_old_sessions_only(
    s: StateModel,
    now: Timestamp,
    order: Seq<Seq<char>>,
    k: Seq<char>,
)
    requires
        lists_keys(order, s.queue),
    ensures
        queue_swept(s, now, order).queue.contains_key(k) <==> s.queue.contains_key(k)
            && !stale_session(s.queue[k], now),
        queue_swept(s, now, order).queue.contains_key(k) ==> queue_swept(s, now, order).queue[k]
            == s.queue[k],
{
    assert(order.contains(k) == s.queue.contains_key(k));
}

/// Sweeping again at once drops nothing more.
pub proof fn sweeping_twice_is_sweeping_once(s: StateModel, now: Timestamp)
    ensures
        rows_swept(rows_swept(s, now), now) == rows_swept(s, now),
{
    let once = rows_swept(s, now);
    let twice = rows_swept(once, now);
    assert(twice.spar_rooms =~= once.spar_rooms);
    assert(twice.confirmed_results =~= once.confirmed_results);
    assert(twice.pending_results =~= once.pending_results);
    assert(twice.spectator_frames =~= once.spectator_frames);
    assert(twice.lobby_presence =~= once.lobby_presence);
    assert(twice.lobby_chat =~= once.lobby_chat);
    assert(twice.oauth_states =~= once.oauth_states);
}

} // verus!
