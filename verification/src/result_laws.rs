//! What a report of a game comes to, in terms of the scores and of who hosted.

use vstd::prelude::*;
use crate::error::AppErrorModel;
use crate::incidents::{DetailModel, DetailValueModel};
use crate::koh::{advanced, is_member, line_of_members, to_back, to_front};
use crate::lobby_laws::{lemma_filter, ranks_sound};
use crate::lobby_requests::{decided, lobby_in, playing_in};
use crate::models::{
    ConfirmedResultModel, KohLobbyModel, MatchResultRequestModel, PendingResultModel, PlayerRole,
    QueueEntryModel,
};
use crate::order_laws::{in_order, lemma_first_in, partners_are_unique, session_of_match};
use crate::pairing_laws::of_a_clock;
use crate::results::{after_attempt, reported, Attempt, NextStep, ResultReply};
use crate::sessions::{first_partner, partner};
use crate::state::StateModel;
use crate::table::lists_keys;
use crate::text::decimal;
use crate::time::{rfc3339_at, Timestamp};

verus! {

/// The sessions `h` and `j` are those of a game that `player` has a part in: one
/// hosts, the other joins the same room, and the report comes from one of them.
pub open spec fn played_between(
    s: StateModel,
    player: Seq<char>,
    session_id: Seq<char>,
    h: Seq<char>,
    j: Seq<char>,
) -> bool {
    &&& s.queue.contains_key(h) && s.queue.contains_key(j)
    &&& s.queue[h].match_info is Some && s.queue[j].match_info is Some
    &&& s.queue[h].match_info->0.role == PlayerRole::Host
    &&& s.queue[j].match_info->0.role == PlayerRole::Join
    &&& s.queue[h].match_info->0.room_id == s.queue[j].match_info->0.room_id
    &&& session_id == h || session_id == j
    &&& s.queue[session_id].discord_id == player
}

/// Which session the reporter's partner has.
proof fn lemma_partner_found(
    s: StateModel,
    player: Seq<char>,
    session_id: Seq<char>,
    h: Seq<char>,
    j: Seq<char>,
    order: Seq<Seq<char>>,
)
    requires
        in_order(s),
        lists_keys(order, s.queue),
        played_between(s, player, session_id, h, j),
    ensures
        h != j,
        s.queue[h].discord_id != s.queue[j].discord_id,
        first_partner(
            order,
            s.queue,
            player,
            s.queue[session_id].match_info->0.room_id,
        ) == Some(
            if session_id == h {
                j
            } else {
                h
            },
        ),
{
    let other = if session_id == h {
        j
    } else {
        h
    };
    partners_are_unique(s, session_id, order, order);
    assert(partner(s.queue[other], player, s.queue[session_id].match_info->0.room_id));
}

/// What is forwarded of a decided game: the winner is the one who scored more, the
/// host having the first score and the joining player the second; ids, names and
/// scores of winner and loser are those of their own sessions, and the game is
/// known by room and number. It is forwarded wherever there is a stats service,
/// except for the matches of unranked lobbies.
pub proof fn a_decided_game_is_told_as_it_was(
    s: StateModel,
    player: Seq<char>,
    req: MatchResultRequestModel,
    now: Timestamp,
    order: Seq<Seq<char>>,
    lobby_order: Seq<Seq<char>>,
    h: Seq<char>,
    j: Seq<char>,
)
    requires
        in_order(s),
        lists_keys(order, s.queue),
        played_between(s, player, req.session_id, h, j),
        reported(s, player, req, now, order, lobby_order).1.reply == Ok::<
            ResultReply,
            AppErrorModel,
        >(ResultReply::Recorded),
    ensures
        ({
            let out = reported(s, player, req, now, order, lobby_order).1;
            let host = s.queue[h];
            let join = s.queue[j];
            let room_id = host.match_info->0.room_id;
            let unranked = exists|id: Seq<char>|
                {
                    &&& #[trigger] s.koh_lobbies.contains_key(id) && !s.koh_lobbies[id].ranked
                    &&& s.koh_lobbies[id].current is Some
                    &&& s.koh_lobbies[id].current->0.room_id == room_id
                };
            &&& out.incident is None
            &&& out.forward is Some <==> s.config.stats_service_url is Some
                && s.config.stats_api_key is Some && !unranked
            &&& out.forward matches Some(job) ==> {
                let told = job.payload;
                &&& Some(job.url) == s.config.stats_service_url
                &&& Some(job.api_key) == s.config.stats_api_key
                &&& told.room_id == room_id + "#"@ + decimal(req.match_index as nat)
                &&& told.rom_hash == s.queue[req.session_id].rom_hash
                &&& req.p1_score > req.p2_score ==> {
                    &&& told.winner_id == host.discord_id && told.loser_id == join.discord_id
                    &&& told.winner_username == host.username
                    &&& told.loser_username == join.username
                    &&& told.winner_score == req.p1_score && told.loser_score == req.p2_score
                }
                &&& req.p1_score <= req.p2_score ==> {
                    &&& told.winner_id == join.discord_id && told.loser_id == host.discord_id
                    &&& told.winner_username == join.username
                    &&& told.loser_username == host.username
                    &&& told.winner_score == req.p2_score && told.loser_score == req.p1_score
                }
            }
        }),
{
    lemma_partner_found(s, player, req.session_id, h, j, order);
    let room_id = s.queue[h].match_info->0.room_id;
    assert forall|id: Seq<char>| s.koh_lobbies.contains_key(id) implies playing_in(
        s.koh_lobbies[id],
        room_id,
    ) == (s.koh_lobbies[id].current is Some && #[trigger] s.koh_lobbies[id].current->0.room_id
        == room_id) by {}
}

/// The line of a lobby whose match has been decided.
proof fn lemma_decided(l: KohLobbyModel, winner: Seq<char>, loser: Seq<char>, now: Timestamp)
    requires
        of_a_clock(now),
        ranks_sound(l),
        l.pending is None,
        winner != loser,
        is_member(l.members, winner),
        is_member(l.members, loser),
    ensures
        ({
            let front = if l.queue.contains(winner) {
                l.queue
            } else {
                seq![winner] + l.queue
            };
            let line = if l.queue.contains(loser) {
                front
            } else {
                front.push(loser)
            };
            let out = decided(l, winner, loser, now);
            &&& line.len() >= 2
            &&& out.pending matches Some(p) && p.champion == line[0] && p.challenger == line[1]
                && p.deadline.nanos == now.nanos + 10_000_000_000
            &&& out == (KohLobbyModel {
                current: None,
                pending: out.pending,
                queue: line.skip(2),
                last_activity: now,
                ..l
            })
        }),
{
    let free = KohLobbyModel { current: None, ..l };
    let front = to_front(free, winner);
    assert(front.queue.contains(loser) == l.queue.contains(loser)) by {
        if !l.queue.contains(winner) {
            if front.queue.contains(loser) {
                let i = choose|i: int| 0 <= i < front.queue.len() && front.queue[i] == loser;
                assert(l.queue[i - 1] == loser);
            }
            if l.queue.contains(loser) {
                let i = choose|i: int| 0 <= i < l.queue.len() && l.queue[i] == loser;
                assert(front.queue[i + 1] == loser);
            }
        }
    }
    let settled = to_back(front, loser);
    let next = KohLobbyModel { last_activity: now, ..settled };
    assert(next.queue.contains(winner)) by {
        if !l.queue.contains(winner) {
            assert(next.queue[0] == winner);
        } else {
            let i = choose|i: int| 0 <= i < l.queue.len() && l.queue[i] == winner;
            assert(next.queue[i] == winner);
        }
    }
    assert(next.queue.contains(loser)) by {
        if !front.queue.contains(loser) {
            assert(next.queue[next.queue.len() - 1] == loser);
        }
    }
    let a = choose|i: int| 0 <= i < next.queue.len() && next.queue[i] == winner;
    let b = choose|i: int| 0 <= i < next.queue.len() && next.queue[i] == loser;
    assert(a != b);
    assert forall|i: int| 0 <= i < next.queue.len() implies is_member(
        next.members,
        #[trigger] next.queue[i],
    ) by {
        if l.queue.contains(next.queue[i]) {
            let k = choose|k: int| 0 <= k < l.queue.len() && l.queue[k] == next.queue[i];
            assert(is_member(l.members, l.queue[k]));
        } else if !l.queue.contains(winner) && 0 < i <= l.queue.len() {
            assert(next.queue[i] == l.queue[i - 1]);
        } else if l.queue.contains(winner) && i < l.queue.len() {
            assert(next.queue[i] == l.queue[i]);
        }
    }
    lemma_filter(next.queue, |id: Seq<char>| is_member(next.members, id));
    assert(line_of_members(next.queue, next.members) == next.queue);
    assert(decided(l, winner, loser, now) == advanced(next, now));
}

/// A set that ends in a lobby's room turns the lobby by the scores: the one who
/// scored more goes to the head of the line and the other one to its end, unless
/// they stand in it already; nobody plays any more, and the first two are called
/// up, with ten seconds to confirm. So whoever won is the next champion, and
/// whoever lost comes last. The sessions of the match are gone; nothing else
/// changes but that the result is recorded.
pub proof fn whoever_scored_more_stays_on_the_hill(
    s: StateModel,
    player: Seq<char>,
    req: MatchResultRequestModel,
    now: Timestamp,
    order: Seq<Seq<char>>,
    lobby_order: Seq<Seq<char>>,
    h: Seq<char>,
    j: Seq<char>,
    lobby_id: Seq<char>,
)
    requires
        of_a_clock(now),
        in_order(s),
        lists_keys(order, s.queue),
        lists_keys(lobby_order, s.koh_lobbies),
        played_between(s, player, req.session_id, h, j),
        s.koh_lobbies.contains_key(lobby_id),
        s.koh_lobbies[lobby_id].current matches Some(c) && c.room_id
            == s.queue[h].match_info->0.room_id,
        req.set_over,
        reported(s, player, req, now, order, lobby_order).1.reply == Ok::<
            ResultReply,
            AppErrorModel,
        >(ResultReply::Recorded),
    ensures
        ({
            let after = reported(s, player, req, now, order, lobby_order).0;
            let l = s.koh_lobbies[lobby_id];
            let out = after.koh_lobbies[lobby_id];
            let winner = if req.p1_score > req.p2_score {
                s.queue[h].discord_id
            } else {
                s.queue[j].discord_id
            };
            let loser = if req.p1_score > req.p2_score {
                s.queue[j].discord_id
            } else {
                s.queue[h].discord_id
            };
            let front = if l.queue.contains(winner) {
                l.queue
            } else {
                seq![winner] + l.queue
            };
            let line = if l.queue.contains(loser) {
                front
            } else {
                front.push(loser)
            };
            &&& out.current is None
            &&& out.pending matches Some(p) && {
                &&& p.champion == line[0] && p.challenger == line[1]
                &&& p.deadline.nanos == now.nanos + 10_000_000_000
                &&& !l.queue.contains(winner) ==> p.champion == winner
                &&& !l.queue.contains(loser) ==> if line.len() == 2 {
                    p.challenger == loser
                } else {
                    out.queue.last() == loser
                }
            }
            &&& out.queue == line.skip(2)
            &&& out == (KohLobbyModel {
                current: None,
                pending: out.pending,
                queue: out.queue,
                last_activity: now,
                ..l
            })
            &&& after.queue == s.queue.remove(h).remove(j)
            &&& after.koh_lobbies == s.koh_lobbies.insert(lobby_id, out)
            &&& after == (StateModel {
                queue: after.queue,
                koh_lobbies: after.koh_lobbies,
                pending_results: after.pending_results,
                confirmed_results: after.confirmed_results,
                ..s
            })
        }),
{
    lemma_partner_found(s, player, req.session_id, h, j, order);
    let l = s.koh_lobbies[lobby_id];
    let room_id = s.queue[h].match_info->0.room_id;
    let p = |l: KohLobbyModel| playing_in(l, room_id);
    lemma_first_in(lobby_order, s.koh_lobbies, p);
    assert(p(l));
    assert(lobby_order.contains(lobby_id));
    let found = lobby_in(lobby_order, s.koh_lobbies, room_id);
    assert(found is Some);
    assert(s.koh_lobbies.contains_key(found->0) && p(s.koh_lobbies[found->0]));
    assert(found->0 == lobby_id);
    let c = l.current->0;
    assert(session_of_match(c, h, s.queue[h]));
    assert(session_of_match(c, j, s.queue[j]));
    assert(c.host_session == h && c.join_session == j);
    let (winner, loser) = if req.p1_score > req.p2_score {
        (c.host, c.join)
    } else {
        (c.join, c.host)
    };
    lemma_decided(l, winner, loser, now);
    let after = reported(s, player, req, now, order, lobby_order).0;
    assert(after.queue =~= s.queue.remove(h).remove(j));
}

/// A game that does not end its set, or that no lobby plays, leaves sessions and
/// lobbies alone.
pub proof fn other_games_leave_the_lobbies_alone(
    s: StateModel,
    player: Seq<char>,
    req: MatchResultRequestModel,
    now: Timestamp,
    order: Seq<Seq<char>>,
    lobby_order: Seq<Seq<char>>,
)
    requires
        s.queue.contains_key(req.session_id),
        !req.set_over || forall|id: Seq<char>| #[trigger]
            s.koh_lobbies.contains_key(id) && s.koh_lobbies[id].current is Some
                ==> s.koh_lobbies[id].current->0.room_id
                != s.queue[req.session_id].match_info->0.room_id,
    ensures
        ({
            let after = reported(s, player, req, now, order, lobby_order).0;
            after == (StateModel {
                pending_results: after.pending_results,
                confirmed_results: after.confirmed_results,
                ..s
            })
        }),
{
    let room_id = s.queue[req.session_id].match_info->0.room_id;
    let p = |l: KohLobbyModel| playing_in(l, room_id);
    lemma_first_in(lobby_order, s.koh_lobbies, p);
    let found = lobby_in(lobby_order, s.koh_lobbies, room_id);
    if req.set_over && found is Some {
        assert(s.koh_lobbies.contains_key(found->0) && p(s.koh_lobbies[found->0]));
    }
}

/// What a report is answered, and what is kept of it. Only a player's own session
/// that has a match counts; what is recorded already stays; the first report of a
/// game waits; a second one by the same player changes nothing; one by the other
/// player either differs in a score, and then both are dropped, or agrees, and
/// then the game is recorded.
pub proof fn reports_are_answered(
    s: StateModel,
    player: Seq<char>,
    req: MatchResultRequestModel,
    now: Timestamp,
    order: Seq<Seq<char>>,
    lobby_order: Seq<Seq<char>>,
)
    ensures
        ({
            let (after, out) = reported(s, player, req, now, order, lobby_order);
            let own = s.queue[req.session_id];
            let id = own.match_info->0.room_id + "#"@ + decimal(req.match_index as nat);
            let first = s.pending_results[id];
            let taken = s.queue.contains_key(req.session_id) && own.discord_id == player
                && own.match_info is Some;
            let open = taken && !s.confirmed_results.contains_key(id);
            let second = open && s.pending_results.contains_key(id) && first.reporter_discord_id
                != player;
            let agrees = first.p1_score == req.p1_score && first.p2_score == req.p2_score;
            &&& !s.queue.contains_key(req.session_id) ==> out.reply == Err::<ResultReply, _>(
                AppErrorModel::NotFound("Session not found"@),
            )
            &&& s.queue.contains_key(req.session_id) && own.discord_id != player ==> out.reply
                == Err::<ResultReply, _>(
                AppErrorModel::Unauthorized("Session does not belong to you"@),
            )
            &&& s.queue.contains_key(req.session_id) && own.discord_id == player
                && own.match_info is None ==> out.reply == Err::<ResultReply, _>(
                AppErrorModel::BadRequest("Match not yet started"@),
            )
            &&& out.reply == Ok::<_, AppErrorModel>(ResultReply::AlreadyRecorded) <==> taken
                && s.confirmed_results.contains_key(id)
            &&& out.reply == Ok::<_, AppErrorModel>(ResultReply::PendingPartner) <==> open
                && !s.pending_results.contains_key(id)
            &&& out.reply == Ok::<_, AppErrorModel>(ResultReply::DuplicateSelfReport) <==> open
                && s.pending_results.contains_key(id) && first.reporter_discord_id == player
            &&& out.reply == Ok::<_, AppErrorModel>(ResultReply::Recorded) ==> second && agrees
            &&& second && !agrees ==> out.reply == Err::<ResultReply, _>(
                AppErrorModel::BadRequest(
                    "Score mismatch with opponent's report — match not committed"@,
                ),
            )
            &&& out.incident is Some <==> second && !agrees
            &&& !second ==> out.forward is None && after == (StateModel {
                pending_results: after.pending_results,
                ..s
            })
            &&& open && !s.pending_results.contains_key(id) ==> after.pending_results
                == s.pending_results.insert(
                id,
                PendingResultModel {
                    reporter_discord_id: player,
                    p1_score: req.p1_score,
                    p2_score: req.p2_score,
                    reported_at: now,
                },
            )
            &&& second ==> after.pending_results == s.pending_results.remove(id)
            &&& second && agrees ==> after.confirmed_results == s.confirmed_results.insert(
                id,
                ConfirmedResultModel { committed_at: now },
            )
            &&& second && !agrees ==> after.confirmed_results == s.confirmed_results
                && out.forward is None
            &&& !second && !(open && !s.pending_results.contains_key(id)) ==> after == s
        }),
{
}

/// A report that agrees with the partner's is recorded wherever the partner is
/// still there.
pub proof fn agreeing_reports_are_recorded(
    s: StateModel,
    player: Seq<char>,
    req: MatchResultRequestModel,
    now: Timestamp,
    order: Seq<Seq<char>>,
    lobby_order: Seq<Seq<char>>,
    h: Seq<char>,
    j: Seq<char>,
)
    requires
        in_order(s),
        lists_keys(order, s.queue),
        played_between(s, player, req.session_id, h, j),
        ({
            let id = s.queue[h].match_info->0.room_id + "#"@ + decimal(req.match_index as nat);
            let first = s.pending_results[id];
            &&& !s.confirmed_results.contains_key(id) && s.pending_results.contains_key(id)
            &&& first.reporter_discord_id != player
            &&& first.p1_score == req.p1_score && first.p2_score == req.p2_score
        }),
    ensures
        reported(s, player, req, now, order, lobby_order).1.reply == Ok::<_, AppErrorModel>(
            ResultReply::Recorded,
        ),
{
    lemma_partner_found(s, player, req.session_id, h, j, order);
}

/// A report that agrees with the partner's cannot be settled while the partner has
/// no session in the room any more, or the two do not have one role each.
pub proof fn settling_needs_both_sides(
    s: StateModel,
    player: Seq<char>,
    req: MatchResultRequestModel,
    now: Timestamp,
    order: Seq<Seq<char>>,
    lobby_order: Seq<Seq<char>>,
)
    requires
        lists_keys(order, s.queue),
        s.queue.contains_key(req.session_id),
        s.queue[req.session_id].discord_id == player,
        s.queue[req.session_id].match_info is Some,
        ({
            let id = s.queue[req.session_id].match_info->0.room_id + "#"@ + decimal(
                req.match_index as nat,
            );
            let first = s.pending_results[id];
            &&& !s.confirmed_results.contains_key(id) && s.pending_results.contains_key(id)
            &&& first.reporter_discord_id != player
            &&& first.p1_score == req.p1_score && first.p2_score == req.p2_score
        }),
    ensures
        ({
            let (after, out) = reported(s, player, req, now, order, lobby_order);
            let info = s.queue[req.session_id].match_info->0;
            let alone = forall|k: Seq<char>|
                !(#[trigger] s.queue.contains_key(k) && s.queue[k].discord_id != player
                    && s.queue[k].match_info is Some && s.queue[k].match_info->0.room_id
                    == info.room_id);
            let alike = forall|k: Seq<char>|
                #[trigger] s.queue.contains_key(k) && s.queue[k].discord_id != player
                    && s.queue[k].match_info is Some && s.queue[k].match_info->0.room_id
                    == info.room_id ==> s.queue[k].match_info->0.role == info.role;
            &&& alone ==> out.reply == Err::<ResultReply, _>(
                AppErrorModel::BadRequest("Opponent not found in queue"@),
            )
            &&& !alone && alike ==> out.reply == Err::<ResultReply, _>(
                AppErrorModel::BadRequest("Unexpected role pair"@),
            )
            &&& alone || alike ==> {
                &&& out.forward is None
                &&& after == (StateModel {
                    pending_results: after.pending_results,
                    confirmed_results: after.confirmed_results,
                    ..s
                })
            }
        }),
{
    let room_id = s.queue[req.session_id].match_info->0.room_id;
    let p = |e: QueueEntryModel| partner(e, player, room_id);
    lemma_first_in(order, s.queue, p);
    match first_partner(order, s.queue, player, room_id) {
        Some(k) => {
            assert(s.queue.contains_key(k) && p(s.queue[k]));
        },
        None => {
            assert forall|k: Seq<char>| #[trigger] s.queue.contains_key(k) implies !p(
                s.queue[k],
            ) by {
                assert(order.contains(k));
            }
        },
    }
}

/// Whether a text stands among the details of an incident under a name.
pub open spec fn says(details: Seq<DetailModel>, name: Seq<char>, value: Seq<char>) -> bool {
    details.contains(DetailModel { name, value: DetailValueModel::Text(value) })
}

/// Whether a number stands among the details of an incident under a name.
pub open spec fn counts(details: Seq<DetailModel>, name: Seq<char>, value: int) -> bool {
    details.contains(DetailModel { name, value: DetailValueModel::Number(value as i64) })
}

/// Two reports that differ are noted with who said what: the first report as it
/// was kept, the second one as it came.
pub proof fn differing_reports_are_noted_as_made(
    s: StateModel,
    player: Seq<char>,
    req: MatchResultRequestModel,
    now: Timestamp,
    order: Seq<Seq<char>>,
    lobby_order: Seq<Seq<char>>,
)
    requires
        reported(s, player, req, now, order, lobby_order).1.incident is Some,
    ensures
        ({
            let noted = reported(s, player, req, now, order, lobby_order).1.incident->0;
            let own = s.queue[req.session_id];
            let id = own.match_info->0.room_id + "#"@ + decimal(req.match_index as nat);
            let first = s.pending_results[id];
            let d = noted.details;
            &&& noted.kind == "score_mismatch"@
            &&& noted.room_id == own.match_info->0.room_id
            &&& noted.session_ids == seq![req.session_id]
            &&& noted.usernames == seq![own.username]
            &&& noted.summary == first.reporter_discord_id + " reported "@ + decimal(
                first.p1_score as nat,
            ) + "-"@ + decimal(first.p2_score as nat) + "; "@ + player + " reported "@ + decimal(
                req.p1_score as nat,
            ) + "-"@ + decimal(req.p2_score as nat)
            &&& d.len() == 10
            &&& says(d, "result_id"@, id)
            &&& counts(d, "match_index"@, req.match_index as int)
            &&& says(d, "first_reporter_discord_id"@, first.reporter_discord_id)
            &&& counts(d, "first_reporter_p1"@, first.p1_score as int)
            &&& counts(d, "first_reporter_p2"@, first.p2_score as int)
            &&& says(d, "second_reporter_discord_id"@, player)
            &&& counts(d, "second_reporter_p1"@, req.p1_score as int)
            &&& counts(d, "second_reporter_p2"@, req.p2_score as int)
            &&& says(d, "first_reported_at"@, rfc3339_at(first.reported_at))
            &&& says(d, "rom_hash"@, own.rom_hash)
        }),
{
    let noted = reported(s, player, req, now, order, lobby_order).1.incident->0;
    let own = s.queue[req.session_id];
    let id = own.match_info->0.room_id + "#"@ + decimal(req.match_index as nat);
    let first = s.pending_results[id];
    let d = noted.details;
    assert(d.len() == 10);
    assert(d.contains(d[0]) && d.contains(d[1]) && d.contains(d[2]) && d.contains(d[3])
        && d.contains(d[4]) && d.contains(d[5]) && d.contains(d[6]) && d.contains(d[7])
        && d.contains(d[8]) && d.contains(d[9]));
    assert(noted.summary =~= first.reporter_discord_id + " reported "@ + decimal(
        first.p1_score as nat,
    ) + "-"@ + decimal(first.p2_score as nat) + "; "@ + player + " reported "@ + decimal(
        req.p1_score as nat,
    ) + "-"@ + decimal(req.p2_score as nat));
}

/// The stats service is tried at most five times, after waits of 1, 3, 8 and 20
/// seconds. A success ends it, and so does a refusal, which no wait mends.
pub proof fn forwarding_is_tried_five_times(attempt: int, came: Attempt)
    requires
        attempt >= 0,
    ensures
        ({
            let next = after_attempt(attempt, came);
            let taken = came matches Attempt::Answered(status) && 200 <= status <= 299;
            let refused = came matches Attempt::Answered(status) && 400 <= status <= 499;
            &&& next == NextStep::Done <==> taken
            &&& next == NextStep::Rejected <==> refused
            &&& next == NextStep::GiveUp <==> !taken && !refused && attempt >= 4
            &&& !taken && !refused ==> {
                &&& attempt == 0 ==> next == NextStep::RetryAfter(1)
                &&& attempt == 1 ==> next == NextStep::RetryAfter(3)
                &&& attempt == 2 ==> next == NextStep::RetryAfter(8)
                &&& attempt == 3 ==> next == NextStep::RetryAfter(20)
            }
        }),
{
}

} // verus!
