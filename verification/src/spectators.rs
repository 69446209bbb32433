//! Watching matches.

use vstd::prelude::*;
use crate::auth::{signed_claims, token_refused, verify_token};
use crate::error::{outcome, AppError, AppErrorModel};
use crate::models::{
    Claims, ClaimsModel, LiveMatch, LiveMatchModel, LiveMatchesResponse, PlayerRole, QueueEntry,
    QueueEntryModel, SpectatorFrame, SpectatorFrameModel, SpectatorPushRequest,
    SpectatorPushRequestModel, SpectatorStateResponse, SpectatorStateResponseModel,
};
use crate::queue::{own_session, session_refusal};
use crate::rooms::lemma_listing_step;
use crate::sessions::{find_partner, first_partner};
use crate::state::{AppState, StateModel};
use crate::table::{self, lists_keys};
use crate::text::same_text;
use crate::time::{hour_minute_at, Timestamp};

verus! {

// Frames

/// The room of a session; empty while it is not matched.
pub open spec fn room_of(e: QueueEntryModel) -> Seq<char> {
    match e.match_info {
        Some(info) => info.room_id,
        None => Seq::empty(),
    }
}

/// The name of a player's opponent, where sessions are met in `order`.
pub open spec fn opponent_name(
    s: StateModel,
    e: QueueEntryModel,
    order: Seq<Seq<char>>,
) -> Seq<char> {
    match first_partner(order, s.queue, e.discord_id, room_of(e)) {
        Some(k) => s.queue[k].username,
        None => "Opponent"@,
    }
}

/// What a push of a frame comes to, where sessions are met in `order`.
pub open spec fn frame_pushed(
    s: StateModel,
    player: Seq<char>,
    session_id: Seq<char>,
    req: SpectatorPushRequestModel,
    now: Timestamp,
    order: Seq<Seq<char>>,
) -> (StateModel, Result<(), AppErrorModel>) {
    let e = s.queue[session_id];
    match session_refusal(s, player, session_id) {
        Some(refusal) => (s, Err(refusal)),
        None => (
            StateModel {
                spectator_frames: s.spectator_frames.insert(
                    session_id,
                    SpectatorFrameModel {
                        savestate: req.savestate,
                        inputs: req.inputs,
                        frame: req.frame,
                        score_p1: req.score_p1,
                        score_p2: req.score_p2,
                        p1_username: e.username,
                        p2_username: opponent_name(s, e, order),
                        updated_at: now,
                    },
                ),
                ..s
            },
            Ok(()),
        ),
    }
}

/// Keeps a frame that a player pushes.
pub fn spectator_push_at(
    state: &mut AppState,
    player: &Claims,
    session_id: &str,
    req: &SpectatorPushRequest,
    now: Timestamp,
    order: &Vec<String>,
) -> (res: Result<(), AppError>)
    ensures
        (final(state)@, outcome(res)) == frame_pushed(
            old(state)@,
            player@.sub,
            session_id@,
            req@,
            now,
            order.deep_view(),
        ),
{
    let e = match own_session(state, player.sub.as_str(), session_id) {
        Ok(e) => e,
        Err(refusal) => {
            return Err(refusal);
        },
    };
    let room_id = match &e.match_info {
        Some(info) => info.room_id.clone(),
        None => String::new(),
    };
    let p2_username = match find_partner(
        order,
        &state.queue,
        e.discord_id.as_str(),
        room_id.as_str(),
    ) {
        Some(other) => other.username,
        None => "Opponent".to_string(),
    };
    table::insert(
        &mut state.spectator_frames,
        session_id.to_string(),
        SpectatorFrame {
            savestate: req.savestate.clone(),
            inputs: req.inputs.clone(),
            frame: req.frame,
            score_p1: req.score_p1,
            score_p2: req.score_p2,
            p1_username: e.username,
            p2_username,
            updated_at: now,
        },
    );
    Ok(())
}

/// Keeps a frame that the caller pushes. Only the player whose session it is may
/// push frames for it.
pub fn spectator_push(
    state: &mut AppState,
    token: &str,
    session_id: &str,
    req: &SpectatorPushRequest,
) -> (res: Result<(), AppError>)
    ensures
        token_refused(res, token@, old(state)@.config.jwt_secret) ==> final(state)@ == old(state)@,
        !token_refused(res, token@, old(state)@.config.jwt_secret) ==> exists|
            player: ClaimsModel,
            now: Timestamp,
            order: Seq<Seq<char>>,
        |
            signed_claims(token@, old(state)@.config.jwt_secret) == Some(player) && now.nanos >= 0
                && lists_keys(order, old(state)@.queue) && (final(state)@, outcome(res))
                == #[trigger] frame_pushed(
                old(state)@,
                player.sub,
                session_id@,
                req@,
                now,
                order,
            ),
{
    let player = match verify_token(token, state.config.jwt_secret.as_str()) {
        Ok(player) => player,
        Err(e) => {
            return Err(e);
        },
    };
    let now = Timestamp::now();
    let order = table::keys(&state.queue);
    spectator_push_at(state, &player, session_id, req, now, &order)
}

/// The latest frame of a session, as a spectator sees it.
pub open spec fn frame_shown(s: StateModel, session_id: Seq<char>) -> Option<
    SpectatorStateResponseModel,
> {
    let f = s.spectator_frames[session_id];
    if s.spectator_frames.contains_key(session_id) {
        Some(
            SpectatorStateResponseModel {
                savestate: f.savestate,
                inputs: f.inputs,
                frame: f.frame,
                score_p1: f.score_p1,
                score_p2: f.score_p2,
                p1_username: f.p1_username,
                p2_username: f.p2_username,
            },
        )
    } else {
        None
    }
}

/// The latest frame of a session, if one has been pushed.
pub fn spectator_state(state: &AppState, session_id: &str) -> (res: Option<SpectatorStateResponse>)
    ensures
        res.deep_view() == frame_shown(state@, session_id@),
{
    match table::get(&state.spectator_frames, session_id) {
        Some(f) => Some(
            SpectatorStateResponse {
                savestate: f.savestate,
                inputs: f.inputs,
                frame: f.frame,
                score_p1: f.score_p1,
                score_p2: f.score_p2,
                p1_username: f.p1_username,
                p2_username: f.p2_username,
            },
        ),
        None => None,
    }
}

// Live matches

/// Whether there is a session under this key that is in a match.
pub open spec fn live(s: StateModel, k: Seq<char>) -> bool {
    s.queue.contains_key(k) && !s.queue[k].cancelled && s.queue[k].match_info is Some
}

/// A session's match, as the live feed shows it. Player one is the host.
pub open spec fn live_match(s: StateModel, k: Seq<char>) -> LiveMatchModel {
    let e = s.queue[k];
    let info = e.match_info->0;
    let pushed = s.spectator_frames.contains_key(k);
    LiveMatchModel {
        room_id: info.room_id,
        p1_username: if info.role == PlayerRole::Host {
            e.username
        } else {
            info.username
        },
        p2_username: if info.role == PlayerRole::Host {
            info.username
        } else {
            e.username
        },
        score_p1: if pushed {
            s.spectator_frames[k].score_p1
        } else {
            0
        },
        score_p2: if pushed {
            s.spectator_frames[k].score_p2
        } else {
            0
        },
        started_at: hour_minute_at(e.queued_at),
    }
}

/// Whether a score has been made.
pub open spec fn scored(m: LiveMatchModel) -> bool {
    m.score_p1 > 0 || m.score_p2 > 0
}

/// The matches of the live sessions, in the order of their keys.
pub open spec fn live_rows(order: Seq<Seq<char>>, s: StateModel) -> Seq<LiveMatchModel> {
    order.filter(|k: Seq<char>| live(s, k)).map_values(|k: Seq<char>| live_match(s, k))
}

/// Those with a score first, otherwise in the same order.
pub open spec fn scored_first(rows: Seq<LiveMatchModel>) -> Seq<LiveMatchModel> {
    rows.filter(|m: LiveMatchModel| scored(m)) + rows.filter(|m: LiveMatchModel| !scored(m))
}

/// Whether a room has a row.
pub open spec fn has_room(rows: Seq<LiveMatchModel>, room_id: Seq<char>) -> bool {
    exists|i: int| 0 <= i < rows.len() && (#[trigger] rows[i]).room_id == room_id
}

/// The first row of each room, in the same order.
pub open spec fn first_of_each_room(rows: Seq<LiveMatchModel>) -> Seq<LiveMatchModel>
    decreases rows.len(),
{
    if rows.len() == 0 {
        Seq::empty()
    } else {
        let kept = first_of_each_room(rows.drop_last());
        if has_room(rows.drop_last(), rows.last().room_id) {
            kept
        } else {
            kept.push(rows.last())
        }
    }
}

/// The live feed: one row for each room, preferably of a side that has pushed a
/// score.
pub open spec fn live_feed(order: Seq<Seq<char>>, s: StateModel) -> Seq<LiveMatchModel> {
    first_of_each_room(scored_first(live_rows(order, s)))
}

/// A session's match, as the live feed shows it.
fn show_match(state: &AppState, key: &str, e: &QueueEntry) -> (m: LiveMatch)
    requires
        live(state@, key@),
        e@ == state@.queue[key@],
    ensures
        m@ == live_match(state@, key@),
{
    let (role, peer, room_id) = match &e.match_info {
        Some(info) => (info.role, info.username.clone(), info.room_id.clone()),
        None => (PlayerRole::Host, String::new(), String::new()),
    };
    let (score_p1, score_p2) = match table::get(&state.spectator_frames, key) {
        Some(f) => (f.score_p1, f.score_p2),
        None => (0, 0),
    };
    let (p1_username, p2_username) = match role {
        PlayerRole::Host => (e.username.clone(), peer),
        PlayerRole::Join => (peer, e.username.clone()),
    };
    LiveMatch {
        room_id,
        p1_username,
        p2_username,
        score_p1,
        score_p2,
        started_at: e.queued_at.hour_minute(),
    }
}

/// The matches of the live sessions, in the order of their keys.
fn collect_live(state: &AppState, order: &Vec<String>) -> (rows: Vec<LiveMatch>)
    ensures
        rows.deep_view() == live_rows(order.deep_view(), state@),
{
    let ghost keys = order.deep_view();
    let ghost p = |k: Seq<char>| live(state@, k);
    let ghost f = |k: Seq<char>| live_match(state@, k);
    let mut rows: Vec<LiveMatch> = Vec::new();
    let mut i: usize = 0;
    assert(rows.deep_view() == keys.take(0).filter(p).map_values(f));
    while i < order.len()
        invariant
            i <= order.len(),
            keys == order.deep_view(),
            p == (|k: Seq<char>| live(state@, k)),
            f == (|k: Seq<char>| live_match(state@, k)),
            rows.deep_view() == keys.take(i as int).filter(p).map_values(f),
        decreases order.len() - i,
    {
        let ghost before = rows.deep_view();
        proof {
            lemma_listing_step(keys, i as int, p, f);
        }
        let key = order[i].as_str();
        if let Some(e) = table::get(&state.queue, key) {
            if !e.cancelled && e.match_info.is_some() {
                rows.push(show_match(state, key, &e));
                proof {
                    assert(rows.deep_view() == before.push(f(keys[i as int])));
                }
            }
        }
        i += 1;
    }
    assert(keys.take(keys.len() as int) == keys);
    rows
}

/// Whether a room has a row.
fn lists_room(rows: &Vec<LiveMatch>, room_id: &str) -> (res: bool)
    ensures
        res == has_room(rows.deep_view(), room_id@),
{
    let ghost all = rows.deep_view();
    let mut i: usize = 0;
    while i < rows.len()
        invariant
            i <= rows.len(),
            all == rows.deep_view(),
            forall|j: int| 0 <= j < i ==> (#[trigger] all[j]).room_id != room_id@,
        decreases rows.len() - i,
    {
        if same_text(rows[i].room_id.as_str(), room_id) {
            assert(all[i as int].room_id == room_id@);
            return true;
        }
        i += 1;
    }
    false
}

/// A room has a row among the first of each exactly if it has one at all.
pub proof fn lemma_rooms_kept(rows: Seq<LiveMatchModel>, room_id: Seq<char>)
    ensures
        has_room(first_of_each_room(rows), room_id) == has_room(rows, room_id),
    decreases rows.len(),
{
    if rows.len() > 0 {
        let rest = rows.drop_last();
        let kept = first_of_each_room(rest);
        lemma_rooms_kept(rest, room_id);
        lemma_rooms_kept(rest, rows.last().room_id);
        if has_room(rows, room_id) && !has_room(rest, room_id) {
            let i = choose|i: int| 0 <= i < rows.len() && (#[trigger] rows[i]).room_id == room_id;
            if i < rest.len() {
                assert(rest[i].room_id == room_id);
            }
            assert(kept.push(rows.last())[kept.len() as int].room_id == room_id);
        }
        if has_room(rest, room_id) {
            let i = choose|i: int| 0 <= i < rest.len() && (#[trigger] rest[i]).room_id == room_id;
            assert(rows[i].room_id == room_id);
            let j = choose|j: int| 0 <= j < kept.len() && (#[trigger] kept[j]).room_id == room_id;
            assert(kept.push(rows.last())[j].room_id == room_id);
        }
        if has_room(first_of_each_room(rows), room_id) && !has_room(rest, room_id) {
            let out = first_of_each_room(rows);
            let i = choose|i: int| 0 <= i < out.len() && (#[trigger] out[i]).room_id == room_id;
            if i < kept.len() {
                assert(kept[i].room_id == room_id);
            }
            assert(rows[rows.len() - 1].room_id == room_id);
        }
    }
}

/// Adds the rows of rooms that have none yet: those with a score, or those
/// without.
fn add_first(out: Vec<LiveMatch>, rows: &Vec<LiveMatch>, with_score: bool, Ghost(sofar): Ghost<
    Seq<LiveMatchModel>,
>) -> (res: Vec<LiveMatch>)
    requires
        out.deep_view() == first_of_each_room(sofar),
    ensures
        res.deep_view() == first_of_each_room(
            sofar + rows.deep_view().filter(|m: LiveMatchModel| scored(m) == with_score),
        ),
{
    let ghost all = rows.deep_view();
    let ghost p = |m: LiveMatchModel| scored(m) == with_score;
    let mut out = out;
    let mut i: usize = 0;
    assert(sofar + all.take(0).filter(p) == sofar);
    while i < rows.len()
        invariant
            i <= rows.len(),
            all == rows.deep_view(),
            p == (|m: LiveMatchModel| scored(m) == with_score),
            out.deep_view() == first_of_each_room(sofar + all.take(i as int).filter(p)),
        decreases rows.len() - i,
    {
        let m = &rows[i];
        let ghost before = out.deep_view();
        let ghost met = sofar + all.take(i as int).filter(p);
        proof {
            reveal(Seq::filter);
            assert(all.take(i + 1).drop_last() == all.take(i as int));
            assert(all.take(i + 1).last() == all[i as int]);
        }
        if (m.score_p1 > 0 || m.score_p2 > 0) == with_score {
            proof {
                let next = sofar + all.take(i + 1).filter(p);
                assert(next == met.push(m@));
                assert(next.drop_last() == met);
                lemma_rooms_kept(met, m@.room_id);
            }
            if !lists_room(&out, m.room_id.as_str()) {
                let copy = LiveMatch {
                    room_id: m.room_id.clone(),
                    p1_username: m.p1_username.clone(),
                    p2_username: m.p2_username.clone(),
                    score_p1: m.score_p1,
                    score_p2: m.score_p2,
                    started_at: m.started_at.clone(),
                };
                out.push(copy);
                proof {
                    assert(out.deep_view() == before.push(m@));
                }
            }
        }
        i += 1;
    }
    assert(all.take(all.len() as int) == all);
    out
}

/// The live feed, where sessions are met in `order`.
pub fn live_matches_in(state: &AppState, order: &Vec<String>) -> (res: LiveMatchesResponse)
    ensures
        res@.matches == live_feed(order.deep_view(), state@),
{
    let rows = collect_live(state, order);
    let ghost all = rows.deep_view();
    let none: Vec<LiveMatch> = Vec::new();
    assert(none.deep_view() == first_of_each_room(Seq::empty()));
    let with = add_first(none, &rows, true, Ghost(Seq::empty()));
    let ghost first = all.filter(|m: LiveMatchModel| scored(m));
    proof {
        let p = |m: LiveMatchModel| scored(m) == true;
        assert(p =~= (|m: LiveMatchModel| scored(m)));
        assert(Seq::empty() + all.filter(p) == first);
    }
    let matches = add_first(with, &rows, false, Ghost(first));
    proof {
        let p = |m: LiveMatchModel| scored(m) == false;
        assert(p =~= (|m: LiveMatchModel| !scored(m)));
    }
    LiveMatchesResponse { matches }
}

/// The live feed: one row for each room, preferably of a side that has pushed a
/// score.
pub fn live_matches(state: &AppState) -> (res: LiveMatchesResponse)
    ensures
        exists|order: Seq<Seq<char>>|
            lists_keys(order, state@.queue) && res@.matches == #[trigger] live_feed(order, state@),
{
    let order = table::keys(&state.queue);
    live_matches_in(state, &order)
}

} // verus!
