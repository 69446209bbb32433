//! Challenges between players in the general lobby.

use dashmap::DashMap;
use vstd::prelude::*;
use crate::auth::{signed_claims, token_refused, verify_token};
use crate::discord::{Notice, NoticeModel};
use crate::error::{outcome, AppError, AppErrorModel};
use crate::ids::{new_uuid, uuid_text};
use crate::models::{
    AcceptChallengeRequest, AcceptChallengeRequestModel, Challenge, ChallengeListResponse,
    ChallengeListResponseModel, ChallengeModel, ChallengeRequest, ChallengeRequestModel,
    ChallengeResponse, ChallengeResponseModel, ChallengeSummary, ChallengeSummaryModel, Claims,
    ClaimsModel, JoinRoomResponse, JoinRoomResponseModel, PlayerRole, QueueEntry,
};
use crate::presence::{touch_lobby_presence, touched};
use crate::queue::{add_session, pair, paired, session_added};
use crate::ranking::{sort_rows, sorted_rows, views, Rank, Ranked};
use crate::rooms::lemma_listing_step;
use crate::sessions::{
    cancel_one, cancel_session, cancelled, endpoint, is_endpoint, meet, meeting, open_session,
    opened, waiting, Sessions,
};
use crate::state::{AppState, StateModel};
use crate::table::{self, lists_keys, queue_rows};
use crate::text::same_text;
use crate::time::{rfc3339_at, Timestamp};

verus! {

/// The table of challenges.
pub type Challenges = Map<Seq<char>, ChallengeModel>;

// Sending

/// A challenge that has just been sent.
pub open spec fn new_challenge(
    s: StateModel,
    player: ClaimsModel,
    req: ChallengeRequestModel,
    challenge_id: Seq<char>,
    session_id: Seq<char>,
    now: Timestamp,
) -> ChallengeModel {
    ChallengeModel {
        challenge_id,
        challenger_session_id: session_id,
        challenger_discord_id: player.sub,
        challenger_username: player.username,
        target_discord_id: s.lobby_presence[req.target_id].player_id,
        target_username: s.lobby_presence[req.target_id].username,
        format: req.format,
        stun_endpoint: req.stun_endpoint,
        app_version: req.app_version,
        rom_hash: req.rom_hash,
        created_at: now,
    }
}

/// What a request to challenge a player comes to. The challenger holds a session
/// that waits for the target.
pub open spec fn challenge_sent(
    s: StateModel,
    player: ClaimsModel,
    req: ChallengeRequestModel,
    challenge_id: Seq<char>,
    session_id: Seq<char>,
    now: Timestamp,
) -> (StateModel, Result<ChallengeResponseModel, AppErrorModel>) {
    if !endpoint(req.stun_endpoint) {
        (s, Err(AppErrorModel::BadRequest("Invalid stun_endpoint"@)))
    } else if req.target_id == player.sub {
        (s, Err(AppErrorModel::BadRequest("Cannot challenge yourself"@)))
    } else if !s.lobby_presence.contains_key(req.target_id) {
        (s, Err(AppErrorModel::NotFound("Target player is not in the lobby"@)))
    } else {
        let waits = session_added(
            s,
            opened(
                session_id,
                player.sub,
                player.username,
                req.stun_endpoint,
                req.app_version,
                req.rom_hash,
                now,
                None,
            ),
        );
        let sent = StateModel {
            challenges: s.challenges.insert(
                challenge_id,
                new_challenge(s, player, req, challenge_id, session_id, now),
            ),
            ..waits
        };
        (
            touched(sent, player, "challenging"@, now),
            Ok(
                ChallengeResponseModel {
                    challenge_id,
                    challenger_session_id: session_id,
                    status: "pending"@,
                },
            ),
        )
    }
}

/// Sends a player's challenge.
pub fn send_challenge_at(
    state: &mut AppState,
    player: &Claims,
    req: &ChallengeRequest,
    challenge_id: &str,
    session_id: &str,
    now: Timestamp,
) -> (res: Result<ChallengeResponse, AppError>)
    ensures
        (final(state)@, outcome(res)) == challenge_sent(
            old(state)@,
            player@,
            req@,
            challenge_id@,
            session_id@,
            now,
        ),
{
    if !is_endpoint(req.stun_endpoint.as_str()) {
        return Err(AppError::bad_request("Invalid stun_endpoint"));
    }
    if req.target_id == player.sub {
        return Err(AppError::bad_request("Cannot challenge yourself"));
    }
    let Some(target) = table::get(&state.lobby_presence, req.target_id.as_str()) else {
        return Err(AppError::not_found("Target player is not in the lobby"));
    };
    let e = open_session(
        session_id,
        player.sub.as_str(),
        player.username.as_str(),
        req.stun_endpoint.as_str(),
        req.app_version.as_str(),
        req.rom_hash.as_str(),
        now,
        None,
    );
    add_session(state, e);
    table::insert(
        &mut state.challenges,
        challenge_id.to_string(),
        Challenge {
            challenge_id: challenge_id.to_string(),
            challenger_session_id: session_id.to_string(),
            challenger_discord_id: player.sub.clone(),
            challenger_username: player.username.clone(),
            target_discord_id: target.player_id,
            target_username: target.username,
            format: req.format,
            stun_endpoint: req.stun_endpoint.clone(),
            app_version: req.app_version.clone(),
            rom_hash: req.rom_hash.clone(),
            created_at: now,
        },
    );
    touch_lobby_presence(state, player, "challenging", now);
    Ok(
        ChallengeResponse {
            challenge_id: challenge_id.to_string(),
            challenger_session_id: session_id.to_string(),
            status: "pending".to_string(),
        },
    )
}

/// Sends the caller's challenge.
pub fn send_challenge(state: &mut AppState, token: &str, req: &ChallengeRequest) -> (res: Result<
    ChallengeResponse,
    AppError,
>)
    ensures
        token_refused(res, token@, old(state)@.config.jwt_secret) ==> final(state)@ == old(state)@,
        !token_refused(res, token@, old(state)@.config.jwt_secret) ==> exists|
            player: ClaimsModel,
            challenge_id: Seq<char>,
            session_id: Seq<char>,
            now: Timestamp,
        |
            signed_claims(token@, old(state)@.config.jwt_secret) == Some(player) && uuid_text(
                challenge_id,
            ) && uuid_text(session_id) && now.nanos >= 0 && (final(state)@, outcome(res))
                == #[trigger] challenge_sent(
                old(state)@,
                player,
                req@,
                challenge_id,
                session_id,
                now,
            ),
{
    let player = match verify_token(token, state.config.jwt_secret.as_str()) {
        Ok(player) => player,
        Err(e) => {
            return Err(e);
        },
    };
    let challenge_id = new_uuid();
    let session_id = new_uuid();
    let now = Timestamp::now();
    send_challenge_at(state, &player, req, challenge_id.as_str(), session_id.as_str(), now)
}

// Accepting

/// Whether either of two players has a part in a challenge.
pub open spec fn involves(c: ChallengeModel, a: Seq<char>, b: Seq<char>) -> bool {
    c.challenger_discord_id == a || c.target_discord_id == a || c.challenger_discord_id == b
        || c.target_discord_id == b
}

/// The challenges in which either of two players has a part.
pub open spec fn involving(challenges: Challenges, a: Seq<char>, b: Seq<char>) -> Challenges {
    challenges.restrict(Set::new(|k: Seq<char>| involves(challenges[k], a, b)))
}

/// Whether a session waits for one of these challenges to be accepted.
pub open spec fn awaits(challenges: Challenges, session_id: Seq<char>) -> bool {
    exists|k: Seq<char>|
        #[trigger] challenges.contains_key(k) && challenges[k].challenger_session_id == session_id
}

/// The table with the sessions cancelled that still wait for one of these
/// challenges.
pub open spec fn stood_up(queue: Sessions, challenges: Challenges) -> Sessions {
    Map::new(
        |k: Seq<char>| queue.contains_key(k),
        |k: Seq<char>|
            if queue[k].match_info is None && awaits(challenges, k) {
                cancelled(queue[k])
            } else {
                queue[k]
            },
    )
}

/// The state once two players are busy: every challenge in which either has a
/// part is gone, and whoever waits for one of those waits no longer.
pub open spec fn made_busy(s: StateModel, a: Seq<char>, b: Seq<char>) -> StateModel {
    StateModel {
        queue: stood_up(s.queue, involving(s.challenges, a, b)),
        challenges: s.challenges.remove_keys(
            Set::new(|k: Seq<char>| involves(s.challenges[k], a, b)),
        ),
        ..s
    }
}

/// What a request to accept a challenge comes to. A challenge is used up by
/// whoever may accept it, even where the challenger turns out to be gone.
pub open spec fn challenge_accepted(
    s: StateModel,
    player: ClaimsModel,
    challenge_id: Seq<char>,
    req: AcceptChallengeRequestModel,
    session_id: Seq<char>,
    room_id: Seq<char>,
    now: Timestamp,
) -> (StateModel, Result<(JoinRoomResponseModel, NoticeModel), AppErrorModel>) {
    let c = s.challenges[challenge_id];
    let used = StateModel { challenges: s.challenges.remove(challenge_id), ..s };
    let host_id = c.challenger_session_id;
    if !endpoint(req.stun_endpoint) {
        (s, Err(AppErrorModel::BadRequest("Invalid stun_endpoint"@)))
    } else if !s.challenges.contains_key(challenge_id) {
        (s, Err(AppErrorModel::NotFound("Challenge not found or expired"@)))
    } else if c.target_discord_id != player.sub {
        (s, Err(AppErrorModel::Unauthorized("Challenge does not belong to you"@)))
    } else if c.app_version != req.app_version || c.rom_hash != req.rom_hash {
        (s, Err(AppErrorModel::BadRequest("Challenge requires matching app version and ROM hash"@)))
    } else if !s.queue.contains_key(host_id) {
        (used, Err(AppErrorModel::NotFound("Challenger session expired"@)))
    } else if !waiting(s.queue[host_id]) {
        (used, Err(AppErrorModel::NotFound("Challenger is no longer available"@)))
    } else {
        (
            made_busy(
                paired(
                    used,
                    host_id,
                    c.challenger_username,
                    player,
                    req.stun_endpoint,
                    req.app_version,
                    req.rom_hash,
                    session_id,
                    room_id,
                    now,
                ),
                c.challenger_discord_id,
                player.sub,
            ),
            Ok(
                (
                    JoinRoomResponseModel {
                        session_id,
                        match_info: meeting(
                            s.config,
                            PlayerRole::Join,
                            s.queue[host_id].stun_endpoint,
                            c.challenger_username,
                            room_id,
                            now,
                        ),
                    },
                    NoticeModel::Matched {
                        first: c.challenger_username,
                        second: player.username,
                    },
                ),
            ),
        )
    }
}

/// Cancels a session that still waits for an opponent.
fn stand_up(queue: &mut DashMap<String, QueueEntry>, session_id: &str)
    ensures
        ({
            let before = queue_rows(*old(queue));
            queue_rows(*final(queue)) == if before.contains_key(session_id@)
                && before[session_id@].match_info is None {
                before.insert(session_id@, cancelled(before[session_id@]))
            } else {
                before
            }
        }),
{
    if let Some(e) = table::get(queue, session_id) {
        if e.match_info.is_none() {
            cancel_session(queue, session_id);
        }
    }
}

/// Drops every challenge in which either of two players has a part.
pub fn make_busy(state: &mut AppState, a: &str, b: &str)
    ensures
        final(state)@ == made_busy(old(state)@, a@, b@),
{
    let keys = table::keys(&state.challenges);
    let ghost s = state@;
    let ghost order = keys.deep_view();
    let ghost stale = involving(s.challenges, a@, b@);
    let mut i: usize = 0;
    proof {
        let done = Set::new(|k: Seq<char>| order.take(0).contains(k));
        assert(stood_up(s.queue, stale.restrict(done)) =~= s.queue);
        assert(s.challenges.remove_keys(stale.dom().intersect(done)) =~= s.challenges);
    }
    while i < keys.len()
        invariant
            i <= keys.len(),
            order == keys.deep_view(),
            lists_keys(order, s.challenges),
            stale == involving(s.challenges, a@, b@),
            state@.queue == stood_up(
                s.queue,
                stale.restrict(Set::new(|k: Seq<char>| order.take(i as int).contains(k))),
            ),
            state@.challenges == s.challenges.remove_keys(
                stale.dom().intersect(Set::new(|k: Seq<char>| order.take(i as int).contains(k))),
            ),
            state@ == (StateModel { queue: state@.queue, challenges: state@.challenges, ..s }),
        decreases keys.len() - i,
    {
        let key = keys[i].as_str();
        let ghost done = Set::new(|k: Seq<char>| order.take(i as int).contains(k));
        let ghost more = Set::new(|k: Seq<char>| order.take(i + 1).contains(k));
        let ghost queue = state@.queue;
        let ghost challenges = state@.challenges;
        proof {
            assert(order[i as int] == key@);
            assert(order.contains(key@));
            assert forall|k: Seq<char>| more.contains(k) == (done.contains(k) || k == key@) by {
                assert(order.take(i + 1) == order.take(i as int).push(key@));
                if done.contains(k) {
                    let j = choose|j: int|
                        0 <= j < order.take(i as int).len() && order.take(i as int)[j] == k;
                    assert(order.take(i + 1)[j] == k);
                }
                assert(order.take(i + 1)[i as int] == key@);
            }
            assert(!done.contains(key@)) by {
                if done.contains(key@) {
                    let j = choose|j: int|
                        0 <= j < order.take(i as int).len() && order.take(i as int)[j] == key@;
                    assert(order[j] == order[i as int]);
                }
            }
        }
        if let Some(c) = table::get(&state.challenges, key) {
            proof {
                assert(c@ == s.challenges[key@]);
            }
            if same_text(c.challenger_discord_id.as_str(), a) || same_text(
                c.target_discord_id.as_str(),
                a,
            ) || same_text(c.challenger_discord_id.as_str(), b) || same_text(
                c.target_discord_id.as_str(),
                b,
            ) {
                let _ = table::remove(&mut state.challenges, key);
                stand_up(&mut state.queue, c.challenger_session_id.as_str());
                proof {
                    assert(stale.contains_key(key@));
                    lemma_stood_up_more(
                        s.queue,
                        stale.restrict(done),
                        stale.restrict(more),
                        key@,
                        c@,
                    );
                    assert(state@.queue =~= stood_up(s.queue, stale.restrict(more)));
                    assert(state@.challenges =~= s.challenges.remove_keys(
                        stale.dom().intersect(more),
                    ));
                }
            } else {
                proof {
                    assert(!stale.contains_key(key@));
                    assert(stale.restrict(more) =~= stale.restrict(done));
                    assert(stale.dom().intersect(more) =~= stale.dom().intersect(done));
                }
            }
        }
        i += 1;
    }
    proof {
        let done = Set::new(|k: Seq<char>| order.take(i as int).contains(k));
        assert(order.take(i as int) == order);
        assert(stale.restrict(done) =~= stale);
        assert(state@.challenges =~= s.challenges.remove_keys(
            Set::new(|k: Seq<char>| involves(s.challenges[k], a@, b@)),
        ));
    }
}

/// One more challenge that is gone cancels the session that waits for it.
proof fn lemma_stood_up_more(
    queue: Sessions,
    fewer: Challenges,
    more: Challenges,
    key: Seq<char>,
    c: ChallengeModel,
)
    requires
        more =~= fewer.insert(key, c),
        !fewer.contains_key(key),
    ensures
        ({
            let before = stood_up(queue, fewer);
            let sid = c.challenger_session_id;
            stood_up(queue, more) == if before.contains_key(sid) && before[sid].match_info is None {
                before.insert(sid, cancelled(before[sid]))
            } else {
                before
            }
        }),
{
    let before = stood_up(queue, fewer);
    let sid = c.challenger_session_id;
    assert(more.contains_key(key) && more[key] == c);
    assert forall|k: Seq<char>| awaits(more, k) == (awaits(fewer, k) || k == sid) by {
        if awaits(fewer, k) {
            let w = choose|w: Seq<char>|
                #[trigger] fewer.contains_key(w) && fewer[w].challenger_session_id == k;
            assert(more.contains_key(w) && more[w].challenger_session_id == k);
        }
        if awaits(more, k) {
            let w = choose|w: Seq<char>|
                #[trigger] more.contains_key(w) && more[w].challenger_session_id == k;
            if w != key {
                assert(fewer.contains_key(w) && fewer[w].challenger_session_id == k);
            }
        }
    }
    assert(stood_up(queue, more) =~= if before.contains_key(sid) && before[sid].match_info is None {
        before.insert(sid, cancelled(before[sid]))
    } else {
        before
    });
}

/// Has a player accept a challenge.
pub fn accept_challenge_at(
    state: &mut AppState,
    player: &Claims,
    challenge_id: &str,
    req: &AcceptChallengeRequest,
    session_id: &str,
    room_id: &str,
    now: Timestamp,
) -> (res: Result<(JoinRoomResponse, Notice), AppError>)
    ensures
        (final(state)@, outcome(res)) == challenge_accepted(
            old(state)@,
            player@,
            challenge_id@,
            req@,
            session_id@,
            room_id@,
            now,
        ),
{
    if !is_endpoint(req.stun_endpoint.as_str()) {
        return Err(AppError::bad_request("Invalid stun_endpoint"));
    }
    let Some(c) = table::get(&state.challenges, challenge_id) else {
        return Err(AppError::not_found("Challenge not found or expired"));
    };
    if c.target_discord_id != player.sub {
        return Err(AppError::unauthorized("Challenge does not belong to you"));
    }
    if c.app_version != req.app_version || c.rom_hash != req.rom_hash {
        return Err(AppError::bad_request("Challenge requires matching app version and ROM hash"));
    }
    let _ = table::remove(&mut state.challenges, challenge_id);
    let Some(host) = table::get(&state.queue, c.challenger_session_id.as_str()) else {
        return Err(AppError::not_found("Challenger session expired"));
    };
    if host.cancelled || host.match_info.is_some() {
        return Err(AppError::not_found("Challenger is no longer available"));
    }
    let match_info = meet(
        &state.config,
        PlayerRole::Join,
        host.stun_endpoint.as_str(),
        c.challenger_username.as_str(),
        room_id,
        now,
    );
    pair(
        state,
        c.challenger_session_id.as_str(),
        c.challenger_username.as_str(),
        player,
        req.stun_endpoint.as_str(),
        req.app_version.as_str(),
        req.rom_hash.as_str(),
        session_id,
        room_id,
        now,
    );
    make_busy(state, c.challenger_discord_id.as_str(), player.sub.as_str());
    Ok(
        (
            JoinRoomResponse { session_id: session_id.to_string(), match_info },
            Notice::Matched { first: c.challenger_username, second: player.username.clone() },
        ),
    )
}

/// Has the caller accept a challenge.
pub fn accept_challenge(
    state: &mut AppState,
    token: &str,
    challenge_id: &str,
    req: &AcceptChallengeRequest,
) -> (res: Result<(JoinRoomResponse, Notice), AppError>)
    ensures
        token_refused(res, token@, old(state)@.config.jwt_secret) ==> final(state)@ == old(state)@,
        !token_refused(res, token@, old(state)@.config.jwt_secret) ==> exists|
            player: ClaimsModel,
            session_id: Seq<char>,
            room_id: Seq<char>,
            now: Timestamp,
        |
            signed_claims(token@, old(state)@.config.jwt_secret) == Some(player) && uuid_text(
                session_id,
            ) && uuid_text(room_id) && now.nanos >= 0 && (final(state)@, outcome(res))
                == #[trigger] challenge_accepted(
                old(state)@,
                player,
                challenge_id@,
                req@,
                session_id,
                room_id,
                now,
            ),
{
    let player = match verify_token(token, state.config.jwt_secret.as_str()) {
        Ok(player) => player,
        Err(e) => {
            return Err(e);
        },
    };
    let session_id = new_uuid();
    let room_id = new_uuid();
    let now = Timestamp::now();
    accept_challenge_at(
        state,
        &player,
        challenge_id,
        req,
        session_id.as_str(),
        room_id.as_str(),
        now,
    )
}

// Declining

/// What a request to decline a challenge, or to take it back, comes to. The
/// challenger waits no longer.
pub open spec fn challenge_declined(
    s: StateModel,
    player: Seq<char>,
    challenge_id: Seq<char>,
) -> (StateModel, Result<(), AppErrorModel>) {
    let c = s.challenges[challenge_id];
    if !s.challenges.contains_key(challenge_id) {
        (s, Err(AppErrorModel::NotFound("Challenge not found or expired"@)))
    } else if c.target_discord_id != player && c.challenger_discord_id != player {
        (s, Err(AppErrorModel::Unauthorized("Challenge does not belong to you"@)))
    } else {
        (
            StateModel {
                challenges: s.challenges.remove(challenge_id),
                queue: cancel_one(s.queue, c.challenger_session_id),
                player_sessions: if s.player_sessions.contains_key(c.challenger_discord_id)
                    && s.player_sessions[c.challenger_discord_id] == c.challenger_session_id {
                    s.player_sessions.remove(c.challenger_discord_id)
                } else {
                    s.player_sessions
                },
                ..s
            },
            Ok(()),
        )
    }
}

/// Has a player decline a challenge, or take it back.
pub fn decline_challenge_for(state: &mut AppState, player: &Claims, challenge_id: &str) -> (res:
    Result<(), AppError>)
    ensures
        (final(state)@, outcome(res)) == challenge_declined(
            old(state)@,
            player@.sub,
            challenge_id@,
        ),
{
    let Some(c) = table::get(&state.challenges, challenge_id) else {
        return Err(AppError::not_found("Challenge not found or expired"));
    };
    if c.target_discord_id != player.sub && c.challenger_discord_id != player.sub {
        return Err(AppError::unauthorized("Challenge does not belong to you"));
    }
    let _ = table::remove(&mut state.challenges, challenge_id);
    cancel_session(&mut state.queue, c.challenger_session_id.as_str());
    if let Some(sid) = table::get(&state.player_sessions, c.challenger_discord_id.as_str()) {
        if sid == c.challenger_session_id {
            let _ = table::remove(&mut state.player_sessions, c.challenger_discord_id.as_str());
        }
    }
    Ok(())
}

/// Has the caller decline a challenge, or take it back.
pub fn decline_challenge(state: &mut AppState, token: &str, challenge_id: &str) -> (res: Result<
    (),
    AppError,
>)
    ensures
        token_refused(res, token@, old(state)@.config.jwt_secret) ==> final(state)@ == old(state)@,
        !token_refused(res, token@, old(state)@.config.jwt_secret) ==> exists|player: ClaimsModel|
            signed_claims(token@, old(state)@.config.jwt_secret) == Some(player) && (
                final(state)@,
                outcome(res),
            ) == #[trigger] challenge_declined(old(state)@, player.sub, challenge_id@),
{
    let player = match verify_token(token, state.config.jwt_secret.as_str()) {
        Ok(player) => player,
        Err(e) => {
            return Err(e);
        },
    };
    decline_challenge_for(state, &player, challenge_id)
}

// Listing

impl Ranked for ChallengeSummary {
    open spec fn rank(row: ChallengeSummaryModel) -> Rank {
        (0, row.created_at, row.challenge_id)
    }

    fn key(&self) -> (key: (i128, &str, &str)) {
        (0, self.created_at.as_str(), self.challenge_id.as_str())
    }
}

/// A challenge as one of its two players sees it.
pub open spec fn challenge_shown(c: ChallengeModel, direction: Seq<char>) -> ChallengeSummaryModel {
    ChallengeSummaryModel {
        challenge_id: c.challenge_id,
        direction,
        challenger_id: c.challenger_discord_id,
        challenger_username: c.challenger_username,
        target_id: c.target_discord_id,
        target_username: c.target_username,
        format: c.format,
        created_at: rfc3339_at(c.created_at),
    }
}

/// A challenge as one of its two players sees it.
pub fn challenge_summary(challenge: &Challenge, direction: &str) -> (summary: ChallengeSummary)
    ensures
        summary@ == challenge_shown(challenge@, direction@),
{
    ChallengeSummary {
        challenge_id: challenge.challenge_id.clone(),
        direction: direction.to_string(),
        challenger_id: challenge.challenger_discord_id.clone(),
        challenger_username: challenge.challenger_username.clone(),
        target_id: challenge.target_discord_id.clone(),
        target_username: challenge.target_username.clone(),
        format: challenge.format,
        created_at: challenge.created_at.rfc3339(),
    }
}

/// A player's challenges, in the order of their keys: those that others sent are
/// incoming, their own are outgoing.
pub open spec fn challenges_of(order: Seq<Seq<char>>, s: StateModel, player: Seq<char>) -> Seq<
    ChallengeSummaryModel,
> {
    order.filter(
        |k: Seq<char>|
            s.challenges[k].target_discord_id == player || s.challenges[k].challenger_discord_id
                == player,
    ).map_values(
        |k: Seq<char>|
            challenge_shown(
                s.challenges[k],
                if s.challenges[k].target_discord_id == player {
                    "incoming"@
                } else {
                    "outgoing"@
                },
            ),
    )
}

/// Whether `res` lists a player's challenges, by the time shown.
pub open spec fn lists_challenges(
    s: StateModel,
    player: Seq<char>,
    res: ChallengeListResponseModel,
) -> bool {
    exists|order: Seq<Seq<char>>|
        lists_keys(order, s.challenges) && sorted_rows::<ChallengeSummary>(
            #[trigger] challenges_of(order, s, player),
            res.challenges,
        )
}

/// Lists a player's challenges, by the time shown, and notes that the player has been
/// seen.
pub fn list_challenges_at(state: &mut AppState, player: &Claims, now: Timestamp) -> (res:
    ChallengeListResponse)
    ensures
        final(state)@ == touched(old(state)@, player@, "online"@, now),
        lists_challenges(old(state)@, player@.sub, res@),
{
    touch_lobby_presence(state, player, "online", now);
    let keys = table::keys(&state.challenges);
    let ghost s = state@;
    let ghost order = keys.deep_view();
    let ghost p = |k: Seq<char>|
        s.challenges[k].target_discord_id == player@.sub || s.challenges[k].challenger_discord_id
            == player@.sub;
    let ghost f = |k: Seq<char>|
        challenge_shown(
            s.challenges[k],
            if s.challenges[k].target_discord_id == player@.sub {
                "incoming"@
            } else {
                "outgoing"@
            },
        );
    let mut rows: Vec<ChallengeSummary> = Vec::new();
    let mut i: usize = 0;
    assert(views(rows@) == order.take(0).filter(p).map_values(f));
    while i < keys.len()
        invariant
            i <= keys.len(),
            s == state@,
            order == keys.deep_view(),
            lists_keys(order, s.challenges),
            p == (|k: Seq<char>|
                s.challenges[k].target_discord_id == player@.sub
                    || s.challenges[k].challenger_discord_id == player@.sub),
            f == (|k: Seq<char>|
                challenge_shown(
                    s.challenges[k],
                    if s.challenges[k].target_discord_id == player@.sub {
                        "incoming"@
                    } else {
                        "outgoing"@
                    },
                )),
            views(rows@) == order.take(i as int).filter(p).map_values(f),
        decreases keys.len() - i,
    {
        let ghost before = views(rows@);
        proof {
            assert(order.contains(order[i as int]));
            lemma_listing_step(order, i as int, p, f);
        }
        if let Some(c) = table::get(&state.challenges, keys[i].as_str()) {
            if c.target_discord_id == player.sub {
                rows.push(challenge_summary(&c, "incoming"));
                proof {
                    assert(views(rows@) == before.push(f(order[i as int])));
                }
            } else if c.challenger_discord_id == player.sub {
                rows.push(challenge_summary(&c, "outgoing"));
                proof {
                    assert(views(rows@) == before.push(f(order[i as int])));
                }
            }
        }
        i += 1;
    }
    proof {
        assert(order.take(order.len() as int) == order);
        assert(views(rows@) == challenges_of(order, s, player@.sub));
        assert(challenges_of(order, s, player@.sub) == challenges_of(
            order,
            old(state)@,
            player@.sub,
        ));
    }
    let challenges = sort_rows(rows);
    let res = ChallengeListResponse { challenges };
    proof {
        assert(res@.challenges == views(challenges@));
    }
    res
}

/// Lists the caller's challenges, by the time shown, and notes that the caller has
/// been seen.
pub fn list_challenges(state: &mut AppState, token: &str) -> (res: Result<
    ChallengeListResponse,
    AppError,
>)
    ensures
        token_refused(res, token@, old(state)@.config.jwt_secret) ==> final(state)@ == old(state)@,
        !token_refused(res, token@, old(state)@.config.jwt_secret) ==> exists|
            player: ClaimsModel,
            now: Timestamp,
        |
            signed_claims(token@, old(state)@.config.jwt_secret) == Some(player) && now.nanos >= 0
                && final(state)@ == #[trigger] touched(old(state)@, player, "online"@, now) && (
            res matches Ok(list) && lists_challenges(old(state)@, player.sub, list@)),
{
    let player = match verify_token(token, state.config.jwt_secret.as_str()) {
        Ok(player) => player,
        Err(e) => {
            return Err(e);
        },
    };
    let now = Timestamp::now();
    Ok(list_challenges_at(state, &player, now))
}

} // verus!
