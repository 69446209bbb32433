//! Match results. A result counts only once both players have reported the same
//! scores.

use vstd::prelude::*;
use crate::auth::{signed_claims, token_refused, verify_token};
use crate::error::{outcome, AppError, AppErrorModel};
use crate::incidents::{note_mismatch, score_mismatch, ServerIncident, ServerIncidentModel};
use crate::lobby_requests::{is_unranked_lobby_room, koh_on_result_at, match_decided, unranked_room};
use crate::models::{
    Claims, ClaimsModel, ConfirmedResult, ConfirmedResultModel, MatchResultRequest,
    MatchResultRequestModel, PendingResult, PendingResultModel, PlayerRole, QueueEntry,
    QueueEntryModel,
};
use crate::queue::{own_session, session_refusal};
use crate::sessions::{find_partner, first_partner};
use crate::state::{AppState, StateModel};
use crate::table::{self, lists_keys};
use crate::text::{decimal, decimal_text};
use crate::time::Timestamp;

verus! {

/// What a player who reports a result is told.
#[derive(Debug, Clone, Copy, PartialEq, Eq, Structural)]
pub enum ResultReply {
    Recorded,
    AlreadyRecorded,
    DuplicateSelfReport,
    PendingPartner,
}

/// A decided game, as the stats service is told of it.
#[derive(Debug)]
pub struct StatsForward {
    /// The result id: room and game.
    pub room_id: String,
    pub winner_id: String,
    pub loser_id: String,
    pub winner_score: u16,
    pub loser_score: u16,
    pub rom_hash: String,
    pub winner_username: String,
    pub loser_username: String,
}

/// The model of [`StatsForward`].
#[verifier::ext_equal]
pub struct StatsForwardModel {
    pub room_id: Seq<char>,
    pub winner_id: Seq<char>,
    pub loser_id: Seq<char>,
    pub winner_score: u16,
    pub loser_score: u16,
    pub rom_hash: Seq<char>,
    pub winner_username: Seq<char>,
    pub loser_username: Seq<char>,
}

impl View for StatsForward {
    type V = StatsForwardModel;

    open spec fn view(&self) -> StatsForwardModel {
        StatsForwardModel {
            room_id: self.room_id@,
            winner_id: self.winner_id@,
            loser_id: self.loser_id@,
            winner_score: self.winner_score,
            loser_score: self.loser_score,
            rom_hash: self.rom_hash@,
            winner_username: self.winner_username@,
            loser_username: self.loser_username@,
        }
    }
}

impl DeepView for StatsForward {
    type V = StatsForwardModel;

    open spec fn deep_view(&self) -> StatsForwardModel {
        self@
    }
}

impl Clone for StatsForward {
    fn clone(&self) -> (copy: StatsForward)
        ensures
            copy@ == self@,
    {
        StatsForward {
            room_id: self.room_id.clone(),
            winner_id: self.winner_id.clone(),
            loser_id: self.loser_id.clone(),
            winner_score: self.winner_score,
            loser_score: self.loser_score,
            rom_hash: self.rom_hash.clone(),
            winner_username: self.winner_username.clone(),
            loser_username: self.loser_username.clone(),
        }
    }
}

/// What to post to the stats service, and where.
#[derive(Debug)]
pub struct StatsJob {
    pub url: String,
    pub api_key: String,
    pub payload: StatsForward,
}

/// The model of [`StatsJob`].
#[verifier::ext_equal]
pub struct StatsJobModel {
    pub url: Seq<char>,
    pub api_key: Seq<char>,
    pub payload: StatsForwardModel,
}

impl View for StatsJob {
    type V = StatsJobModel;

    open spec fn view(&self) -> StatsJobModel {
        StatsJobModel {
            url: self.url@,
            api_key: self.api_key@,
            payload: self.payload@,
        }
    }
}

impl DeepView for StatsJob {
    type V = StatsJobModel;

    open spec fn deep_view(&self) -> StatsJobModel {
        self@
    }
}

impl View for ResultReply {
    type V = ResultReply;

    open spec fn view(&self) -> ResultReply {
        *self
    }
}

/// What a report comes to: the reply, what to record as an incident, and what to
/// forward to the stats service.
#[derive(Debug)]
pub struct ResultOutcome {
    pub reply: Result<ResultReply, AppError>,
    pub incident: Option<ServerIncident>,
    pub forward: Option<StatsJob>,
}

/// The model of [`ResultOutcome`].
#[verifier::ext_equal]
pub struct ResultOutcomeModel {
    pub reply: Result<ResultReply, AppErrorModel>,
    pub incident: Option<ServerIncidentModel>,
    pub forward: Option<StatsJobModel>,
}

impl View for ResultOutcome {
    type V = ResultOutcomeModel;

    open spec fn view(&self) -> ResultOutcomeModel {
        ResultOutcomeModel {
            reply: outcome(self.reply),
            incident: self.incident.deep_view(),
            forward: self.forward.deep_view(),
        }
    }
}

/// What identifies a game: the room and the number of the game in it.
pub open spec fn result_id(room_id: Seq<char>, match_index: u32) -> Seq<char> {
    room_id + "#"@ + decimal(match_index as nat)
}

/// What identifies a game: the room and the number of the game in it.
pub fn result_id_of(room_id: &str, match_index: u32) -> (id: String)
    ensures
        id@ == result_id(room_id@, match_index),
{
    let mut id = room_id.to_string();
    id.append("#");
    id.append(decimal_text(match_index as u64).as_str());
    id
}

/// The outcome of a report that only has a reply.
pub open spec fn replied(reply: Result<ResultReply, AppErrorModel>) -> ResultOutcomeModel {
    ResultOutcomeModel { reply, incident: None, forward: None }
}

/// The host and the joining player of two sessions in one room, if their roles
/// are these.
pub open spec fn seated(own: QueueEntryModel, other: QueueEntryModel) -> Option<
    (QueueEntryModel, QueueEntryModel),
> {
    match (own.match_info->0.role, other.match_info->0.role) {
        (PlayerRole::Host, PlayerRole::Join) => Some((own, other)),
        (PlayerRole::Join, PlayerRole::Host) => Some((other, own)),
        _ => None,
    }
}

/// A decided game. Player one is the host; the host wins with the higher score.
pub open spec fn verdict(
    host: QueueEntryModel,
    join: QueueEntryModel,
    p1_score: u16,
    p2_score: u16,
    id: Seq<char>,
    rom_hash: Seq<char>,
) -> StatsForwardModel {
    let host_won = p1_score > p2_score;
    let (winner, loser) = if host_won {
        (host, join)
    } else {
        (join, host)
    };
    StatsForwardModel {
        room_id: id,
        winner_id: winner.discord_id,
        loser_id: loser.discord_id,
        winner_score: if host_won {
            p1_score
        } else {
            p2_score
        },
        loser_score: if host_won {
            p2_score
        } else {
            p1_score
        },
        rom_hash,
        winner_username: winner.username,
        loser_username: loser.username,
    }
}

/// What the stats service is told of a decided game. It is told nothing of the
/// games of unranked lobbies, nor where it is not configured.
pub open spec fn stats_job(
    s: StateModel,
    room_id: Seq<char>,
    decided: StatsForwardModel,
) -> Option<StatsJobModel> {
    if !unranked_room(s, room_id) && s.config.stats_service_url is Some
        && s.config.stats_api_key is Some {
        Some(
            StatsJobModel {
                url: s.config.stats_service_url->0,
                api_key: s.config.stats_api_key->0,
                payload: decided,
            },
        )
    } else {
        None
    }
}

/// The state once both players have reported a game.
pub open spec fn confirmed(s: StateModel, id: Seq<char>, now: Timestamp) -> StateModel {
    StateModel {
        pending_results: s.pending_results.remove(id),
        confirmed_results: s.confirmed_results.insert(
            id,
            ConfirmedResultModel { committed_at: now },
        ),
        ..s
    }
}

/// What a game that both players have reported comes to, where sessions are met
/// in `order` and lobbies in `lobby_order`.
pub open spec fn settled(
    s: StateModel,
    own: QueueEntryModel,
    req: MatchResultRequestModel,
    now: Timestamp,
    order: Seq<Seq<char>>,
    lobby_order: Seq<Seq<char>>,
) -> (StateModel, ResultOutcomeModel) {
    let room_id = own.match_info->0.room_id;
    match first_partner(order, s.queue, own.discord_id, room_id) {
        None => (s, replied(Err(AppErrorModel::BadRequest("Opponent not found in queue"@)))),
        Some(k) => match seated(own, s.queue[k]) {
            None => (s, replied(Err(AppErrorModel::BadRequest("Unexpected role pair"@)))),
            Some((host, join)) => {
                let decided = verdict(
                    host,
                    join,
                    req.p1_score,
                    req.p2_score,
                    result_id(room_id, req.match_index),
                    own.rom_hash,
                );
                (
                    if req.set_over {
                        match_decided(
                            s,
                            room_id,
                            decided.winner_id,
                            decided.loser_id,
                            now,
                            lobby_order,
                        )
                    } else {
                        s
                    },
                    ResultOutcomeModel {
                        reply: Ok(ResultReply::Recorded),
                        incident: None,
                        forward: stats_job(s, room_id, decided),
                    },
                )
            },
        },
    }
}

/// What a report comes to, where sessions are met in `order` and lobbies in
/// `lobby_order`. The first report of a game waits for the other player's; two
/// reports that agree settle the game; two that differ are both dropped.
pub open spec fn reported(
    s: StateModel,
    player: Seq<char>,
    req: MatchResultRequestModel,
    now: Timestamp,
    order: Seq<Seq<char>>,
    lobby_order: Seq<Seq<char>>,
) -> (StateModel, ResultOutcomeModel) {
    let own = s.queue[req.session_id];
    let id = result_id(own.match_info->0.room_id, req.match_index);
    let first = s.pending_results[id];
    match session_refusal(s, player, req.session_id) {
        Some(refusal) => (s, replied(Err(refusal))),
        None => if own.match_info is None {
            (s, replied(Err(AppErrorModel::BadRequest("Match not yet started"@))))
        } else if s.confirmed_results.contains_key(id) {
            (s, replied(Ok(ResultReply::AlreadyRecorded)))
        } else if !s.pending_results.contains_key(id) {
            (
                StateModel {
                    pending_results: s.pending_results.insert(
                        id,
                        PendingResultModel {
                            reporter_discord_id: player,
                            p1_score: req.p1_score,
                            p2_score: req.p2_score,
                            reported_at: now,
                        },
                    ),
                    ..s
                },
                replied(Ok(ResultReply::PendingPartner)),
            )
        } else if first.reporter_discord_id == player {
            (s, replied(Ok(ResultReply::DuplicateSelfReport)))
        } else if first.p1_score != req.p1_score || first.p2_score != req.p2_score {
            (
                StateModel { pending_results: s.pending_results.remove(id), ..s },
                ResultOutcomeModel {
                    reply: Err(
                        AppErrorModel::BadRequest(
                            "Score mismatch with opponent's report — match not committed"@,
                        ),
                    ),
                    incident: Some(
                        score_mismatch(
                            first,
                            own,
                            id,
                            req.match_index,
                            req.p1_score,
                            req.p2_score,
                            req.session_id,
                        ),
                    ),
                    forward: None,
                },
            )
        } else {
            settled(confirmed(s, id, now), own, req, now, order, lobby_order)
        },
    }
}

fn reply_only(reply: Result<ResultReply, AppError>) -> (res: ResultOutcome)
    ensures
        res@ == replied(outcome(reply)),
{
    ResultOutcome { reply, incident: None, forward: None }
}

/// A decided game.
fn judge(
    host: &QueueEntry,
    join: &QueueEntry,
    p1_score: u16,
    p2_score: u16,
    id: &str,
    rom_hash: &str,
) -> (decided: StatsForward)
    ensures
        decided@ == verdict(host@, join@, p1_score, p2_score, id@, rom_hash@),
{
    let host_won = p1_score > p2_score;
    let (winner, loser) = if host_won {
        (host, join)
    } else {
        (join, host)
    };
    StatsForward {
        room_id: id.to_string(),
        winner_id: winner.discord_id.clone(),
        loser_id: loser.discord_id.clone(),
        winner_score: if host_won {
            p1_score
        } else {
            p2_score
        },
        loser_score: if host_won {
            p2_score
        } else {
            p1_score
        },
        rom_hash: rom_hash.to_string(),
        winner_username: winner.username.clone(),
        loser_username: loser.username.clone(),
    }
}

/// What the stats service is told of a decided game.
fn job_for(state: &AppState, room_id: &str, decided: &StatsForward) -> (job: Option<StatsJob>)
    ensures
        job.deep_view() == stats_job(state@, room_id@, decided@),
{
    if is_unranked_lobby_room(state, room_id) {
        return None;
    }
    match (&state.config.stats_service_url, &state.config.stats_api_key) {
        (Some(url), Some(key)) => Some(
            StatsJob { url: url.clone(), api_key: key.clone(), payload: decided.clone() },
        ),
        _ => None,
    }
}

/// Settles a game that both players have reported.
fn settle(
    state: &mut AppState,
    own: &QueueEntry,
    room_id: &str,
    id: &str,
    req: &MatchResultRequest,
    now: Timestamp,
    order: &Vec<String>,
    lobby_order: &Vec<String>,
) -> (res: ResultOutcome)
    requires
        own@.match_info is Some,
        room_id@ == own@.match_info->0.room_id,
        id@ == result_id(room_id@, req@.match_index),
    ensures
        (final(state)@, res@) == settled(
            old(state)@,
            own@,
            req@,
            now,
            order.deep_view(),
            lobby_order.deep_view(),
        ),
{
    let Some(other) = find_partner(order, &state.queue, own.discord_id.as_str(), room_id) else {
        return reply_only(Err(AppError::bad_request("Opponent not found in queue")));
    };
    let (own_role, other_role) = match (&own.match_info, &other.match_info) {
        (Some(a), Some(b)) => (a.role, b.role),
        _ => {
            return reply_only(Err(AppError::bad_request("Unexpected role pair")));
        },
    };
    let decided = match (own_role, other_role) {
        (PlayerRole::Host, PlayerRole::Join) => judge(
            own,
            &other,
            req.p1_score,
            req.p2_score,
            id,
            own.rom_hash.as_str(),
        ),
        (PlayerRole::Join, PlayerRole::Host) => judge(
            &other,
            own,
            req.p1_score,
            req.p2_score,
            id,
            own.rom_hash.as_str(),
        ),
        _ => {
            return reply_only(Err(AppError::bad_request("Unexpected role pair")));
        },
    };
    let forward = job_for(state, room_id, &decided);
    if req.set_over {
        koh_on_result_at(
            state,
            room_id,
            decided.winner_id.as_str(),
            decided.loser_id.as_str(),
            now,
            lobby_order,
        );
    }
    ResultOutcome { reply: Ok(ResultReply::Recorded), incident: None, forward }
}

/// Takes a player's report of a game.
pub fn match_result_at(
    state: &mut AppState,
    player: &Claims,
    req: &MatchResultRequest,
    now: Timestamp,
    order: &Vec<String>,
    lobby_order: &Vec<String>,
) -> (res: ResultOutcome)
    ensures
        (final(state)@, res@) == reported(
            old(state)@,
            player@.sub,
            req@,
            now,
            order.deep_view(),
            lobby_order.deep_view(),
        ),
{
    let own = match own_session(state, player.sub.as_str(), req.session_id.as_str()) {
        Ok(e) => e,
        Err(refusal) => {
            return reply_only(Err(refusal));
        },
    };
    let room_id = match &own.match_info {
        Some(info) => info.room_id.clone(),
        None => {
            return reply_only(Err(AppError::bad_request("Match not yet started")));
        },
    };
    let id = result_id_of(room_id.as_str(), req.match_index);
    if table::contains_key(&state.confirmed_results, id.as_str()) {
        return reply_only(Ok(ResultReply::AlreadyRecorded));
    }
    let Some(first) = table::get(&state.pending_results, id.as_str()) else {
        table::insert(
            &mut state.pending_results,
            id,
            PendingResult {
                reporter_discord_id: player.sub.clone(),
                p1_score: req.p1_score,
                p2_score: req.p2_score,
                reported_at: now,
            },
        );
        return reply_only(Ok(ResultReply::PendingPartner));
    };
    if first.reporter_discord_id == player.sub {
        return reply_only(Ok(ResultReply::DuplicateSelfReport));
    }
    let _ = table::remove(&mut state.pending_results, id.as_str());
    if first.p1_score != req.p1_score || first.p2_score != req.p2_score {
        let incident = note_mismatch(
            &first,
            &own,
            id.as_str(),
            req.match_index,
            req.p1_score,
            req.p2_score,
            req.session_id.as_str(),
        );
        return ResultOutcome {
            reply: Err(
                AppError::bad_request(
                    "Score mismatch with opponent's report — match not committed",
                ),
            ),
            incident: Some(incident),
            forward: None,
        };
    }
    table::insert(
        &mut state.confirmed_results,
        id.clone(),
        ConfirmedResult { committed_at: now },
    );
    proof {
        assert(state@ == confirmed(old(state)@, id@, now));
    }
    settle(state, &own, room_id.as_str(), id.as_str(), req, now, order, lobby_order)
}

/// Takes the caller's report of a game.
pub fn match_result(state: &mut AppState, token: &str, req: &MatchResultRequest) -> (res:
    ResultOutcome)
    ensures
        token_refused(res.reply, token@, old(state)@.config.jwt_secret) ==> final(state)@ == old(
            state,
        )@ && res@.incident is None && res@.forward is None,
        !token_refused(res.reply, token@, old(state)@.config.jwt_secret) ==> exists|
            player: ClaimsModel,
            now: Timestamp,
            order: Seq<Seq<char>>,
            lobby_order: Seq<Seq<char>>,
        |
            signed_claims(token@, old(state)@.config.jwt_secret) == Some(player) && now.nanos >= 0
                && lists_keys(order, old(state)@.queue) && lists_keys(
                lobby_order,
                old(state)@.koh_lobbies,
            ) && (final(state)@, res@) == #[trigger] reported(
                old(state)@,
                player.sub,
                req@,
                now,
                order,
                lobby_order,
            ),
{
    let player = match verify_token(token, state.config.jwt_secret.as_str()) {
        Ok(player) => player,
        Err(e) => {
            return ResultOutcome { reply: Err(e), incident: None, forward: None };
        },
    };
    let now = Timestamp::now();
    let order = table::keys(&state.queue);
    let lobby_order = table::keys(&state.koh_lobbies);
    match_result_at(state, &player, req, now, &order, &lobby_order)
}

// Forwarding

/// How often the stats service is tried.
pub const STATS_ATTEMPTS: usize = 5;

/// What came of an attempt to reach the stats service.
#[derive(Debug, Clone, Copy, PartialEq, Eq, Structural)]
pub enum Attempt {
    /// It answered with this HTTP status.
    Answered(u16),
    /// It could not be reached.
    Unreachable,
}

/// What to do after an attempt to reach the stats service.
#[derive(Debug, Clone, Copy, PartialEq, Eq, Structural)]
pub enum NextStep {
    /// The result has been taken.
    Done,
    /// The result has been refused; trying again would not help.
    Rejected,
    /// Wait so many seconds and try again.
    RetryAfter(u64),
    /// The last attempt has failed.
    GiveUp,
}

/// How long to wait after a failed attempt, by its number from 0 on.
pub open spec fn backoff_secs(attempt: int) -> u64 {
    if attempt <= 0 {
        1
    } else if attempt == 1 {
        3
    } else if attempt == 2 {
        8
    } else {
        20
    }
}

/// What to do after an attempt, by its number from 0 on. Success ends it, and so
/// does a refusal; anything else is tried again, up to five times in all.
pub open spec fn after_attempt(attempt: int, came: Attempt) -> NextStep {
    if came matches Attempt::Answered(status) && 200 <= status < 300 {
        NextStep::Done
    } else if came matches Attempt::Answered(status) && 400 <= status < 500 {
        NextStep::Rejected
    } else if attempt + 1 < STATS_ATTEMPTS {
        NextStep::RetryAfter(backoff_secs(attempt))
    } else {
        NextStep::GiveUp
    }
}

/// What to do after an attempt to reach the stats service, by its number from 0
/// on.
pub fn forward_to_stats_with_retry(attempt: usize, came: Attempt) -> (next: NextStep)
    ensures
        next == after_attempt(attempt as int, came),
{
    if let Attempt::Answered(status) = came {
        if 200 <= status && status < 300 {
            return NextStep::Done;
        }
        if 400 <= status && status < 500 {
            return NextStep::Rejected;
        }
    }
    match attempt {
        0 => NextStep::RetryAfter(1),
        1 => NextStep::RetryAfter(3),
        2 => NextStep::RetryAfter(8),
        3 => NextStep::RetryAfter(20),
        _ => NextStep::GiveUp,
    }
}

} // verus!
