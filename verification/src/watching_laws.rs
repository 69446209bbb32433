//! What spectators see: pushed frames, the live feed and screenshots.

use vstd::prelude::*;
use crate::error::AppErrorModel;
use crate::lobby_laws::lemma_filter;
use crate::lobby_requests::thumb_put;
use crate::models::{
    LiveMatchModel, LobbyThumbModel, PlayerRole, QueueEntryModel, SpectatorPushRequestModel,
};
use crate::order_laws::lemma_first_in;
use crate::pairing_laws::of_a_clock;
use crate::service_laws::{each_room_is_shown_once, lemma_kept_rows, the_live_feed_is_complete};
use crate::sessions::{first_partner, partner};
use crate::spectators::{
    first_of_each_room, frame_pushed, frame_shown, live, live_feed, live_match, live_rows, scored,
    scored_first,
};
use crate::state::StateModel;
use crate::table::lists_keys;
use crate::text::{decimal, padded_decimal};
use crate::time::{hour_minute_at, Timestamp};

verus! {

// Frames

/// A frame is kept for a player's own session as it was pushed, under the
/// player's name first and the opponent's second, and shown like that. Nothing
/// else changes, and nobody else's push is taken.
pub proof fn frames_are_kept_as_pushed(
    s: StateModel,
    player: Seq<char>,
    session_id: Seq<char>,
    req: SpectatorPushRequestModel,
    now: Timestamp,
    order: Seq<Seq<char>>,
)
    requires
        lists_keys(order, s.queue),
    ensures
        ({
            let (after, res) = frame_pushed(s, player, session_id, req, now, order);
            let e = s.queue[session_id];
            let f = after.spectator_frames[session_id];
            &&& res is Ok <==> s.queue.contains_key(session_id) && e.discord_id == player
            &&& !s.queue.contains_key(session_id) ==> res == Err::<(), _>(
                AppErrorModel::NotFound("Session not found"@),
            )
            &&& s.queue.contains_key(session_id) && e.discord_id != player ==> res == Err::<(), _>(
                AppErrorModel::Unauthorized("Session does not belong to you"@),
            )
            &&& res is Err ==> after == s
            &&& res is Ok ==> {
                &&& after == (StateModel {
                    spectator_frames: s.spectator_frames.insert(session_id, f),
                    ..s
                })
                &&& f.savestate == req.savestate && f.inputs == req.inputs && f.frame == req.frame
                &&& f.score_p1 == req.score_p1 && f.score_p2 == req.score_p2
                &&& f.p1_username == e.username && f.updated_at == now
                &&& e.match_info matches Some(info) ==> {
                    ||| exists|k: Seq<char>|
                        {
                            &&& #[trigger] s.queue.contains_key(k)
                            &&& s.queue[k].discord_id != player
                            &&& s.queue[k].match_info is Some
                            &&& s.queue[k].match_info->0.room_id == info.room_id
                            &&& f.p2_username == s.queue[k].username
                        }
                    ||| f.p2_username == "Opponent"@ && forall|k: Seq<char>|
                        !(#[trigger] s.queue.contains_key(k) && s.queue[k].discord_id != player
                            && s.queue[k].match_info is Some
                            && s.queue[k].match_info->0.room_id == info.room_id)
                }
                &&& frame_shown(after, session_id) matches Some(shown) && {
                    &&& shown.savestate == req.savestate && shown.inputs == req.inputs
                    &&& shown.frame == req.frame
                    &&& shown.score_p1 == req.score_p1 && shown.score_p2 == req.score_p2
                    &&& shown.p1_username == e.username && shown.p2_username == f.p2_username
                }
            }
        }),
{
    let e = s.queue[session_id];
    if e.match_info is Some && s.queue.contains_key(session_id) && e.discord_id == player {
        let room_id = e.match_info->0.room_id;
        let p = |x: QueueEntryModel| partner(x, player, room_id);
        lemma_first_in(order, s.queue, p);
        match first_partner(order, s.queue, player, room_id) {
            Some(k) => {
                assert(s.queue.contains_key(k) && p(s.queue[k]));
            },
            None => {
                assert forall|k: Seq<char>| #[trigger] s.queue.contains_key(k) implies !p(
                    s.queue[k],
                ) by {
                    assert(order.contains(k));
                }
            },
        }
    }
}

/// Whoever watches sees the frame that is kept, and nothing where there is none.
pub proof fn frames_are_shown_as_kept(s: StateModel, session_id: Seq<char>)
    ensures
        ({
            let res = frame_shown(s, session_id);
            let f = s.spectator_frames[session_id];
            &&& res is Some <==> s.spectator_frames.contains_key(session_id)
            &&& res matches Some(shown) ==> {
                &&& shown.savestate == f.savestate && shown.inputs == f.inputs
                &&& shown.frame == f.frame
                &&& shown.score_p1 == f.score_p1 && shown.score_p2 == f.score_p2
                &&& shown.p1_username == f.p1_username && shown.p2_username == f.p2_username
            }
        }),
{
}

// The live feed

/// Whether a text is the time of day, as `HH:MM`, of a point in time.
pub open spec fn tells_time(text: Seq<char>, t: Timestamp) -> bool {
    let minutes = t.nanos as int / 60_000_000_000 % 1440;
    &&& text.len() == 5 && text[2] == ':'
    &&& text[0] as int - '0' as int == minutes / 600
    &&& text[1] as int - '0' as int == minutes / 60 % 10
    &&& text[3] as int - '0' as int == minutes % 60 / 10
    &&& text[4] as int - '0' as int == minutes % 10
}

/// Whether a row of the live feed is of the session under `k`: in its room, with
/// the scores last pushed for it, each in its own place, the host's name first and
/// the joining player's second.
pub open spec fn row_of(s: StateModel, k: Seq<char>, m: LiveMatchModel) -> bool {
    let e = s.queue[k];
    let info = e.match_info->0;
    let f = s.spectator_frames[k];
    &&& s.queue.contains_key(k) && !e.cancelled && e.match_info is Some
    &&& m.room_id == info.room_id
    &&& info.role == PlayerRole::Host ==> m.p1_username == e.username && m.p2_username
        == info.username
    &&& info.role == PlayerRole::Join ==> m.p1_username == info.username && m.p2_username
        == e.username
    &&& s.spectator_frames.contains_key(k) ==> m.score_p1 == f.score_p1 && m.score_p2
        == f.score_p2
    &&& !s.spectator_frames.contains_key(k) ==> m.score_p1 == 0 && m.score_p2 == 0
    &&& of_a_clock(e.queued_at) ==> tells_time(m.started_at, e.queued_at)
}

/// A number under 100 in two digits.
proof fn lemma_two_digits(n: nat)
    requires
        n < 100,
    ensures
        padded_decimal(n, 2).len() == 2,
        padded_decimal(n, 2)[0] as int - '0' as int == n / 10,
        padded_decimal(n, 2)[1] as int - '0' as int == n % 10,
{
    reveal_with_fuel(decimal, 3);
}

/// The time of day of a point on a clock.
proof fn lemma_time_of_day(t: Timestamp)
    requires
        of_a_clock(t),
    ensures
        tells_time(hour_minute_at(t), t),
{
    let n = t.nanos as int;
    let secs = n / 1_000_000_000;
    let minutes = n / 60_000_000_000 % 1440;
    assert(n / 60_000_000_000 == secs / 60);
    assert(secs % 86_400 / 60 == secs / 60 % 1440);
    let second = secs % 86_400;
    assert(second / 3600 == minutes / 60);
    assert(second % 3600 / 60 == minutes % 60);
    lemma_two_digits((second / 3600) as nat);
    lemma_two_digits((second % 3600 / 60) as nat);
}

/// Every row of the live feed is of a session that is in a match.
pub proof fn each_row_is_of_a_live_session(order: Seq<Seq<char>>, s: StateModel, i: int)
    requires
        0 <= i < live_feed(order, s).len(),
    ensures
        exists|k: Seq<char>| order.contains(k) && #[trigger] row_of(s, k, live_feed(order, s)[i]),
{
    let m = live_feed(order, s)[i];
    let rows = live_rows(order, s);
    lemma_kept_rows(scored_first(rows), m);
    let sorted = scored_first(rows);
    assert(live_feed(order, s).contains(m));
    let yes = |m: LiveMatchModel| scored(m);
    let no = |m: LiveMatchModel| !scored(m);
    lemma_filter(rows, yes);
    lemma_filter(rows, no);
    let (with, without) = (rows.filter(yes), rows.filter(no));
    assert(sorted == with + without);
    let n = choose|n: int| 0 <= n < sorted.len() && sorted[n] == m;
    if n < with.len() {
        assert(with[n] == m);
        assert(with.contains(m));
    } else {
        assert(without[n - with.len()] == m);
        assert(without.contains(m));
    }
    assert(rows.contains(m));
    let p = |k: Seq<char>| live(s, k);
    let f = |k: Seq<char>| live_match(s, k);
    lemma_filter(order, p);
    let kept = order.filter(p);
    assert(rows == kept.map_values(f));
    let j = choose|j: int| 0 <= j < rows.len() && rows[j] == m;
    let k = kept[j];
    assert(kept.contains(k));
    assert(order.contains(k) && live(s, k));
    assert(m == live_match(s, k));
    if of_a_clock(s.queue[k].queued_at) {
        lemma_time_of_day(s.queue[k].queued_at);
    }
    assert(row_of(s, k, m));
}

/// Every session that is in a match has its room in the live feed, in one row
/// only; and if a score has been pushed for it, that row has one.
pub proof fn each_live_session_has_a_row(order: Seq<Seq<char>>, s: StateModel, k: Seq<char>)
    requires
        order.contains(k),
        s.queue.contains_key(k),
        !s.queue[k].cancelled,
        s.queue[k].match_info is Some,
    ensures
        exists|i: int|
            {
                &&& 0 <= i < live_feed(order, s).len()
                &&& (#[trigger] live_feed(order, s)[i]).room_id == s.queue[k].match_info->0.room_id
                &&& s.spectator_frames.contains_key(k) && (s.spectator_frames[k].score_p1 > 0
                    || s.spectator_frames[k].score_p2 > 0) ==> live_feed(order, s)[i].score_p1 > 0
                    || live_feed(order, s)[i].score_p2 > 0
            },
        forall|i: int, j: int|
            0 <= i < j < live_feed(order, s).len() ==> (#[trigger] live_feed(order, s)[i]).room_id
                != (#[trigger] live_feed(order, s)[j]).room_id,
{
    the_live_feed_is_complete(s, order, k);
    each_room_is_shown_once(scored_first(live_rows(order, s)));
    let feed = live_feed(order, s);
    let room_id = s.queue[k].match_info->0.room_id;
    let i = choose|i: int| 0 <= i < feed.len() && (#[trigger] feed[i]).room_id == room_id;
    assert(feed.contains(feed[i]));
    assert(scored(live_match(s, k)) ==> scored(feed[i]));
}

/// The rows of later rooms come after those of earlier ones.
proof fn lemma_later_rows(early: Seq<LiveMatchModel>, late: Seq<LiveMatchModel>)
    ensures
        ({
            let out = first_of_each_room(early + late);
            let n = first_of_each_room(early).len();
            &&& n <= out.len()
            &&& forall|i: int| 0 <= i < n ==> early.contains(#[trigger] out[i])
            &&& forall|i: int| n <= i < out.len() ==> late.contains(#[trigger] out[i])
        }),
    decreases late.len(),
{
    let rows = early + late;
    let first = first_of_each_room(early);
    if late.len() == 0 {
        assert(rows =~= early);
        assert forall|i: int| 0 <= i < first.len() implies early.contains(#[trigger] first[i]) by {
            assert(first.contains(first[i]));
            lemma_kept_rows(early, first[i]);
        }
    } else {
        let fewer = late.drop_last();
        lemma_later_rows(early, fewer);
        assert(rows.drop_last() =~= early + fewer);
        let before = first_of_each_room(early + fewer);
        let out = first_of_each_room(rows);
        assert forall|i: int| first.len() <= i < out.len() implies late.contains(
            #[trigger] out[i],
        ) by {
            if i < before.len() {
                assert(out[i] == before[i]);
                assert(fewer.contains(before[i]));
                let j = choose|j: int| 0 <= j < fewer.len() && fewer[j] == before[i];
                assert(late[j] == out[i]);
            } else {
                assert(out[i] == late[late.len() - 1]);
            }
        }
        assert forall|i: int| 0 <= i < first.len() implies early.contains(#[trigger] out[i]) by {
            assert(out[i] == before[i]);
        }
    }
}

/// In the live feed the matches with a score come before those without.
pub proof fn matches_with_a_score_come_first(
    order: Seq<Seq<char>>,
    s: StateModel,
    i: int,
    j: int,
)
    requires
        0 <= i < j < live_feed(order, s).len(),
        live_feed(order, s)[j].score_p1 > 0 || live_feed(order, s)[j].score_p2 > 0,
    ensures
        live_feed(order, s)[i].score_p1 > 0 || live_feed(order, s)[i].score_p2 > 0,
{
    let rows = live_rows(order, s);
    let yes = |m: LiveMatchModel| scored(m);
    let no = |m: LiveMatchModel| !scored(m);
    lemma_filter(rows, yes);
    lemma_filter(rows, no);
    let (with, without) = (rows.filter(yes), rows.filter(no));
    lemma_later_rows(with, without);
    let feed = live_feed(order, s);
    assert(feed == first_of_each_room(with + without));
    let n = first_of_each_room(with).len();
    if j >= n {
        assert(without.contains(feed[j]));
    }
    assert(with.contains(feed[i]));
}

// Screenshots

/// A screenshot is kept for a lobby if one of the two who play there pushes it and
/// it has at most 256 KiB; nothing else changes.
pub proof fn screenshots_are_taken_from_players(
    s: StateModel,
    player: Seq<char>,
    lobby_id: Seq<char>,
    bytes: Seq<u8>,
    now: Timestamp,
)
    ensures
        ({
            let (after, res) = thumb_put(s, player, lobby_id, bytes, now);
            let c = s.koh_lobbies[lobby_id].current;
            let playing = s.koh_lobbies.contains_key(lobby_id) && c is Some && (c->0.host == player
                || c->0.join == player);
            &&& res is Ok <==> bytes.len() <= 262_144 && playing
            &&& res is Ok ==> after == (StateModel {
                lobby_thumbs: s.lobby_thumbs.insert(
                    lobby_id,
                    LobbyThumbModel { bytes, pushed_at: now },
                ),
                ..s
            })
            &&& res is Err ==> after == s
            &&& bytes.len() > 262_144 ==> res == Err::<(), _>(
                AppErrorModel::BadRequest("Thumbnail too large"@),
            )
            &&& bytes.len() <= 262_144 && !playing ==> res == Err::<(), _>(
                AppErrorModel::Unauthorized("Only active players can push a lobby thumbnail"@),
            )
        }),
{
}

} // verus!
