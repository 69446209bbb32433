//! What the two players of a match are told, whichever way they met: by looking
//! for a game, in a room, by a challenge or in a lobby.

use vstd::prelude::*;
use vstd::utf8::encode_utf8;
use crate::challenges::{awaits, challenge_accepted, involving};
use crate::config::ConfigModel;
use crate::digest::hmac_sha256;
use crate::discord::NoticeModel;
use crate::error::AppErrorModel;
use crate::koh::{lemma_seat, seat};
use crate::lobby_laws::being_seen_keeps_order;
use crate::lobby_requests::{lobby_readied, seen};
use crate::models::{
    AcceptChallengeRequestModel, ClaimsModel, JoinRoomRequestModel, LfgRequestModel,
    LobbyMemberModel, MatchInfoModel, MatchStatus, PlayerRole, QueueEntryModel,
    TurnReadyRequestModel,
};
use crate::order_laws::{in_order, lemma_first_in};
use crate::queue::{
    called_off, lfg, peer_address, queue_cancelled, relay_reported, requeued, session_status,
};
use crate::rooms::room_joined;
use crate::sessions::{eligible, first_opponent, first_partner, meeting, partner, relay_role};
use crate::state::StateModel;
use crate::table::lists_keys;
use crate::text::decimal;
use crate::time::Timestamp;
use crate::turn::{credentials, hex, issued_second, second_read, secret_bytes};

verus! {

// Introductions

/// A session that has just been opened for a player, under an id of its own, with
/// what the player said of themselves.
pub open spec fn new_for(
    e: QueueEntryModel,
    session_id: Seq<char>,
    player_id: Seq<char>,
    username: Seq<char>,
    stun_endpoint: Seq<char>,
    app_version: Seq<char>,
    rom_hash: Seq<char>,
    now: Timestamp,
) -> bool {
    &&& e.session_id == session_id
    &&& e.discord_id == player_id
    &&& e.username == username
    &&& e.stun_endpoint == stun_endpoint
    &&& e.app_version == app_version
    &&& e.rom_hash == rom_hash
    &&& e.queued_at == now
    &&& !e.cancelled
    &&& e.relayed_addr is None
}

/// The relay credentials in what a player is told: where there is a relay, the
/// user name has the player's own role number, the end of an hour from now and the
/// room, and the password is its tag under the shared secret.
pub open spec fn credentials_of(
    config: ConfigModel,
    info: MatchInfoModel,
    role: char,
    now: Timestamp,
) -> bool {
    match info.turn {
        None => config.turn_server_ip is None || config.turn_shared_secret is None,
        Some(c) => {
            &&& config.turn_server_ip is Some && config.turn_shared_secret is Some
            &&& c.uri == "relay://"@ + config.turn_server_ip->0 + ":3478"@
            &&& c.username == seq![role, ':'] + decimal(
                (now.nanos as int / 1_000_000_000 + 3600) as nat,
            ) + seq![':'] + info.room_id
            &&& c.password == hex(
                hmac_sha256(secret_bytes(config.turn_shared_secret->0), encode_utf8(c.username)),
            )
            &&& c.ttl_secs == 3600
        },
    }
}

/// Two sessions that tell of each other: one hosts and the other joins, both are
/// in the room `room_id`, both punch two and a half seconds from now, and each has
/// the other's endpoint and name, and credentials of its own. The host's name is
/// told as `host_name`.
pub open spec fn introduced(
    config: ConfigModel,
    host: QueueEntryModel,
    join: QueueEntryModel,
    host_name: Seq<char>,
    room_id: Seq<char>,
    now: Timestamp,
) -> bool {
    &&& host.match_info matches Some(a) && join.match_info matches Some(b) && {
        &&& a.role == PlayerRole::Host && b.role == PlayerRole::Join
        &&& a.room_id == room_id && b.room_id == room_id
        &&& a.punch_at_ms == now.nanos as int / 1_000_000 + 2500
        &&& b.punch_at_ms == now.nanos as int / 1_000_000 + 2500
        &&& a.peer_endpoint == join.stun_endpoint
        &&& b.peer_endpoint == host.stun_endpoint
        &&& a.username == join.username
        &&& b.username == host_name
        &&& credentials_of(config, a, '0', now)
        &&& credentials_of(config, b, '1', now)
    }
}

/// A time that clocks show: not before 1970, and within chrono's calendar.
pub open spec fn of_a_clock(now: Timestamp) -> bool {
    0 <= now.nanos < 8_210_266_876_800_000_000_000
}

/// What a meeting says, in plain terms.
proof fn lemma_meeting(
    config: ConfigModel,
    role: PlayerRole,
    peer_endpoint: Seq<char>,
    peer_username: Seq<char>,
    room_id: Seq<char>,
    now: Timestamp,
)
    requires
        of_a_clock(now),
    ensures
        ({
            let info = meeting(config, role, peer_endpoint, peer_username, room_id, now);
            &&& info.role == role
            &&& info.room_id == room_id
            &&& info.punch_at_ms == now.nanos as int / 1_000_000 + 2500
            &&& info.peer_endpoint == peer_endpoint
            &&& info.username == peer_username
            &&& credentials_of(
                config,
                info,
                if role == PlayerRole::Host {
                    '0'
                } else {
                    '1'
                },
                now,
            )
        }),
{
    let info = meeting(config, role, peer_endpoint, peer_username, room_id, now);
    let number = relay_role(role);
    let digit = if role == PlayerRole::Host {
        '0'
    } else {
        '1'
    };
    assert(decimal(number) =~= seq![digit]) by {
        reveal_with_fuel(decimal, 2);
    }
    let expiry = decimal((now.nanos as int / 1_000_000_000 + 3600) as nat);
    assert(seq![digit] + seq![':'] + expiry + seq![':'] + room_id =~= seq![digit, ':'] + expiry
        + seq![':'] + room_id);
}

/// Whoever finds an opponent at once is introduced to them: to someone else who
/// was waiting with the same build, whose session is otherwise as it was. The
/// announcement names both.
pub proof fn looking_for_a_game_introduces_both(
    s: StateModel,
    player: ClaimsModel,
    req: LfgRequestModel,
    session_id: Seq<char>,
    room_id: Seq<char>,
    now: Timestamp,
    order: Seq<Seq<char>>,
)
    requires
        of_a_clock(now),
        !s.queue.contains_key(session_id),
        lfg(s, player, req, session_id, room_id, now, order).1 matches Ok((answer, _))
            && answer.status == MatchStatus::Matched,
    ensures
        ({
            let (after, res) = lfg(s, player, req, session_id, room_id, now, order);
            let (answer, notice) = res->Ok_0;
            let own = after.queue[session_id];
            &&& answer.session_id == session_id
            &&& after.queue.contains_key(session_id)
            &&& new_for(
                own,
                session_id,
                player.sub,
                player.username,
                req.stun_endpoint,
                req.app_version,
                req.rom_hash,
                now,
            )
            &&& exists|k: Seq<char>|
                {
                    &&& #[trigger] s.queue.contains_key(k) && after.queue.contains_key(k)
                    &&& k != session_id
                    &&& !s.queue[k].cancelled && s.queue[k].match_info is None
                    &&& s.queue[k].discord_id != player.sub
                    &&& s.queue[k].app_version == req.app_version
                    &&& s.queue[k].rom_hash == req.rom_hash
                    &&& after.queue[k] == (QueueEntryModel {
                        match_info: after.queue[k].match_info,
                        ..s.queue[k]
                    })
                    &&& introduced(
                        s.config,
                        after.queue[k],
                        own,
                        s.queue[k].username,
                        room_id,
                        now,
                    )
                    &&& notice == (NoticeModel::Matched {
                        first: player.username,
                        second: s.queue[k].username,
                    })
                    &&& forall|j: Seq<char>|
                        #[trigger] after.queue.contains_key(j) && j != k && j != session_id
                            ==> after.queue[j].match_info == s.queue[j].match_info
                }
        }),
{
    let r = requeued(s, player.sub);
    let p = |e: QueueEntryModel| eligible(e, player.sub, req.app_version, req.rom_hash);
    lemma_first_in(order, r.queue, p);
    let k = first_opponent(order, r.queue, player.sub, req.app_version, req.rom_hash)->0;
    assert(p(r.queue[k]));
    assert(s.queue.contains_key(k) && r.queue[k] == s.queue[k]);
    lemma_meeting(
        s.config,
        PlayerRole::Host,
        req.stun_endpoint,
        player.username,
        room_id,
        now,
    );
    lemma_meeting(
        s.config,
        PlayerRole::Join,
        s.queue[k].stun_endpoint,
        s.queue[k].username,
        room_id,
        now,
    );
}

/// Whoever finds nobody waits: nobody else was waiting with the same build. They
/// hold a new session without a match, and the announcement names them.
pub proof fn looking_for_a_game_in_vain_is_waiting(
    s: StateModel,
    player: ClaimsModel,
    req: LfgRequestModel,
    session_id: Seq<char>,
    room_id: Seq<char>,
    now: Timestamp,
    order: Seq<Seq<char>>,
)
    requires
        lists_keys(order, s.queue),
        lfg(s, player, req, session_id, room_id, now, order).1 matches Ok((answer, _))
            && answer.status != MatchStatus::Matched,
    ensures
        ({
            let (after, res) = lfg(s, player, req, session_id, room_id, now, order);
            let (answer, notice) = res->Ok_0;
            &&& answer.session_id == session_id && answer.status == MatchStatus::Queued
            &&& after.queue.contains_key(session_id)
            &&& new_for(
                after.queue[session_id],
                session_id,
                player.sub,
                player.username,
                req.stun_endpoint,
                req.app_version,
                req.rom_hash,
                now,
            )
            &&& after.queue[session_id].match_info is None
            &&& notice == (NoticeModel::Lfg { username: player.username })
            &&& forall|k: Seq<char>| #[trigger]
                s.queue.contains_key(k) && !(s.player_sessions.contains_key(player.sub)
                    && s.player_sessions[player.sub] == k) ==> {
                    ||| s.queue[k].cancelled || s.queue[k].match_info is Some
                    ||| s.queue[k].discord_id == player.sub
                    ||| s.queue[k].app_version != req.app_version
                    ||| s.queue[k].rom_hash != req.rom_hash
                }
            &&& forall|k: Seq<char>| #[trigger]
                after.queue.contains_key(k) && k != session_id ==> after.queue[k].match_info
                    == s.queue[k].match_info
        }),
{
    let r = requeued(s, player.sub);
    let p = |e: QueueEntryModel| eligible(e, player.sub, req.app_version, req.rom_hash);
    lemma_first_in(order, r.queue, p);
    assert forall|k: Seq<char>| #[trigger]
        s.queue.contains_key(k) && !(s.player_sessions.contains_key(player.sub)
            && s.player_sessions[player.sub] == k) implies {
        ||| s.queue[k].cancelled || s.queue[k].match_info is Some
        ||| s.queue[k].discord_id == player.sub
        ||| s.queue[k].app_version != req.app_version
        ||| s.queue[k].rom_hash != req.rom_hash
    } by {
        assert(order.contains(k) && r.queue.contains_key(k));
        assert(!p(r.queue[k]));
    }
}

/// A request for an opponent touches nothing but the sessions and who holds which,
/// and of the sessions of others only those whom it pairs with or calls off. The
/// session that the player held before is gone, and whoever was matched with it is
/// called off.
pub proof fn looking_for_a_game_leaves_the_rest(
    s: StateModel,
    player: ClaimsModel,
    req: LfgRequestModel,
    session_id: Seq<char>,
    room_id: Seq<char>,
    now: Timestamp,
    order: Seq<Seq<char>>,
    k: Seq<char>,
    other: Seq<char>,
)
    ensures
        ({
            let (after, res) = lfg(s, player, req, session_id, room_id, now, order);
            &&& after == (StateModel {
                queue: after.queue,
                player_sessions: after.player_sessions,
                ..s
            })
            &&& res is Ok <==> req.stun_endpoint.contains(':')
            &&& res is Err ==> res->Err_0 == AppErrorModel::BadRequest("Invalid stun_endpoint"@)
            &&& other != player.sub ==> after.player_sessions.contains_key(other)
                == s.player_sessions.contains_key(other) && (s.player_sessions.contains_key(other)
                ==> after.player_sessions[other] == s.player_sessions[other])
            &&& res is Ok ==> after.player_sessions.contains_key(player.sub)
                && after.player_sessions[player.sub] == session_id
            &&& after.queue.contains_key(k) && k != session_id ==> {
                &&& s.queue.contains_key(k)
                &&& after.queue[k] == (QueueEntryModel {
                    match_info: after.queue[k].match_info,
                    cancelled: after.queue[k].cancelled,
                    ..s.queue[k]
                })
                &&& s.queue[k].cancelled ==> after.queue[k] == s.queue[k]
                &&& after.queue[k].cancelled && !s.queue[k].cancelled ==> {
                    let previous = s.queue[s.player_sessions[player.sub]];
                    &&& s.player_sessions.contains_key(player.sub)
                    &&& s.queue.contains_key(s.player_sessions[player.sub])
                    &&& !previous.cancelled
                    &&& previous.match_info is Some && s.queue[k].match_info is Some
                    &&& previous.match_info->0.room_id == s.queue[k].match_info->0.room_id
                    &&& s.queue[k].discord_id != player.sub
                }
            }
            &&& s.queue.contains_key(k) && !after.queue.contains_key(k) ==> {
                &&& s.player_sessions.contains_key(player.sub)
                &&& s.player_sessions[player.sub] == k
            }
            &&& res is Ok && k != session_id && s.player_sessions.contains_key(player.sub) ==> {
                let held = s.player_sessions[player.sub];
                let previous = s.queue[held];
                &&& k == held ==> !after.queue.contains_key(k)
                &&& {
                    &&& s.queue.contains_key(held) && !previous.cancelled
                    &&& previous.match_info is Some
                    &&& s.queue.contains_key(k) && k != held
                    &&& s.queue[k].discord_id != player.sub
                    &&& s.queue[k].match_info is Some
                    &&& s.queue[k].match_info->0.room_id == previous.match_info->0.room_id
                } ==> after.queue[k].cancelled
            }
        }),
{
    let r = requeued(s, player.sub);
    let p = |e: QueueEntryModel| eligible(e, player.sub, req.app_version, req.rom_hash);
    lemma_first_in(order, r.queue, p);
    if let Some(host) = first_opponent(order, r.queue, player.sub, req.app_version, req.rom_hash) {
        assert(p(r.queue[host]) && r.queue.contains_key(host));
    }
}

/// Whoever joins a room and its creator are introduced to each other, and the
/// answer is what the joining player's new session knows. The creator's session is
/// otherwise as it was, and the room is gone.
pub proof fn joining_a_room_introduces_both(
    s: StateModel,
    player: ClaimsModel,
    room_id: Seq<char>,
    req: JoinRoomRequestModel,
    session_id: Seq<char>,
    match_room_id: Seq<char>,
    now: Timestamp,
)
    requires
        of_a_clock(now),
        !s.queue.contains_key(session_id),
        room_joined(s, player, room_id, req, session_id, match_room_id, now).1 is Ok,
    ensures
        ({
            let (after, res) = room_joined(
                s,
                player,
                room_id,
                req,
                session_id,
                match_room_id,
                now,
            );
            let (answer, notice) = res->Ok_0;
            let room = s.spar_rooms[room_id];
            let host_id = s.player_sessions[room.creator_discord_id];
            let own = after.queue[session_id];
            &&& s.spar_rooms.contains_key(room_id) && room.creator_discord_id != player.sub
            &&& room.app_version == req.app_version && room.rom_hash == req.rom_hash
            &&& s.player_sessions.contains_key(room.creator_discord_id)
            &&& s.queue.contains_key(host_id) && !s.queue[host_id].cancelled
            &&& s.queue[host_id].match_info is None
            &&& answer.session_id == session_id
            &&& own.match_info == Some(answer.match_info)
            &&& new_for(
                own,
                session_id,
                player.sub,
                player.username,
                req.stun_endpoint,
                req.app_version,
                req.rom_hash,
                now,
            )
            &&& introduced(
                s.config,
                after.queue[host_id],
                own,
                room.creator_username,
                match_room_id,
                now,
            )
            &&& after.queue == s.queue.insert(
                host_id,
                QueueEntryModel {
                    match_info: after.queue[host_id].match_info,
                    ..s.queue[host_id]
                },
            ).insert(session_id, own)
            &&& after.player_sessions == s.player_sessions.insert(player.sub, session_id)
            &&& after.spar_rooms == s.spar_rooms.remove(room_id)
            &&& after == (StateModel {
                queue: after.queue,
                player_sessions: after.player_sessions,
                spar_rooms: after.spar_rooms,
                ..s
            })
            &&& notice == (NoticeModel::Matched {
                first: room.creator_username,
                second: player.username,
            })
        }),
{
    let room = s.spar_rooms[room_id];
    let host_id = s.player_sessions[room.creator_discord_id];
    lemma_meeting(
        s.config,
        PlayerRole::Host,
        req.stun_endpoint,
        player.username,
        match_room_id,
        now,
    );
    lemma_meeting(
        s.config,
        PlayerRole::Join,
        s.queue[host_id].stun_endpoint,
        room.creator_username,
        match_room_id,
        now,
    );
}

/// Whoever accepts a challenge and the challenger are introduced to each other,
/// and the answer is what the accepting player's new session knows: the endpoint
/// in it is the challenger's.
pub proof fn accepting_a_challenge_introduces_both(
    s: StateModel,
    player: ClaimsModel,
    challenge_id: Seq<char>,
    req: AcceptChallengeRequestModel,
    session_id: Seq<char>,
    room_id: Seq<char>,
    now: Timestamp,
)
    requires
        of_a_clock(now),
        !s.queue.contains_key(session_id),
        challenge_accepted(s, player, challenge_id, req, session_id, room_id, now).1 is Ok,
    ensures
        ({
            let (after, res) = challenge_accepted(
                s,
                player,
                challenge_id,
                req,
                session_id,
                room_id,
                now,
            );
            let (answer, notice) = res->Ok_0;
            let c = s.challenges[challenge_id];
            let host_id = c.challenger_session_id;
            let own = after.queue[session_id];
            &&& s.challenges.contains_key(challenge_id) && c.target_discord_id == player.sub
            &&& c.app_version == req.app_version && c.rom_hash == req.rom_hash
            &&& s.queue.contains_key(host_id) && !s.queue[host_id].cancelled
            &&& s.queue[host_id].match_info is None
            &&& after.queue.contains_key(host_id) && after.queue.contains_key(session_id)
            &&& answer.session_id == session_id
            &&& own.match_info == Some(answer.match_info)
            &&& answer.match_info.peer_endpoint == s.queue[host_id].stun_endpoint
            &&& answer.match_info.username == c.challenger_username
            &&& new_for(
                own,
                session_id,
                player.sub,
                player.username,
                req.stun_endpoint,
                req.app_version,
                req.rom_hash,
                now,
            )
            &&& introduced(
                s.config,
                after.queue[host_id],
                own,
                c.challenger_username,
                room_id,
                now,
            )
            &&& after.queue[host_id] == (QueueEntryModel {
                match_info: after.queue[host_id].match_info,
                ..s.queue[host_id]
            })
            &&& after.player_sessions == s.player_sessions.insert(player.sub, session_id)
            &&& after == (StateModel {
                queue: after.queue,
                player_sessions: after.player_sessions,
                challenges: after.challenges,
                ..s
            })
            &&& notice == (NoticeModel::Matched {
                first: c.challenger_username,
                second: player.username,
            })
        }),
{
    let c = s.challenges[challenge_id];
    let host_id = c.challenger_session_id;
    lemma_meeting(
        s.config,
        PlayerRole::Host,
        req.stun_endpoint,
        player.username,
        room_id,
        now,
    );
    lemma_meeting(
        s.config,
        PlayerRole::Join,
        s.queue[host_id].stun_endpoint,
        c.challenger_username,
        room_id,
        now,
    );
}

/// A session whose player waits for nothing but a challenge that is gone is
/// called off when the challenge is accepted, and no other session is: of the rest
/// nothing changes.
pub proof fn accepting_calls_off_who_waits_for_the_two(
    s: StateModel,
    player: ClaimsModel,
    challenge_id: Seq<char>,
    req: AcceptChallengeRequestModel,
    session_id: Seq<char>,
    room_id: Seq<char>,
    now: Timestamp,
    k: Seq<char>,
)
    requires
        challenge_accepted(s, player, challenge_id, req, session_id, room_id, now).1 is Ok,
        s.queue.contains_key(k),
        k != session_id,
        k != s.challenges[challenge_id].challenger_session_id,
    ensures
        ({
            let after = challenge_accepted(
                s,
                player,
                challenge_id,
                req,
                session_id,
                room_id,
                now,
            ).0;
            let challenger = s.challenges[challenge_id].challenger_discord_id;
            let stood_up = exists|w: Seq<char>|
                {
                    &&& #[trigger] s.challenges.contains_key(w) && w != challenge_id
                    &&& s.challenges[w].challenger_session_id == k
                    &&& {
                        ||| s.challenges[w].challenger_discord_id == challenger
                        ||| s.challenges[w].target_discord_id == challenger
                        ||| s.challenges[w].challenger_discord_id == player.sub
                        ||| s.challenges[w].target_discord_id == player.sub
                    }
                };
            &&& after.queue.contains_key(k)
            &&& s.queue[k].match_info is None && stood_up ==> after.queue[k] == (QueueEntryModel {
                cancelled: true,
                ..s.queue[k]
            })
            &&& !(s.queue[k].match_info is None && stood_up) ==> after.queue[k] == s.queue[k]
        }),
{
    let used = s.challenges.remove(challenge_id);
    let challenger = s.challenges[challenge_id].challenger_discord_id;
    let gone = involving(used, challenger, player.sub);
    if awaits(gone, k) {
        let w = choose|w: Seq<char>|
            #[trigger] gone.contains_key(w) && gone[w].challenger_session_id == k;
        assert(s.challenges.contains_key(w) && w != challenge_id);
    }
    if exists|w: Seq<char>|
        #[trigger] s.challenges.contains_key(w) && w != challenge_id
            && s.challenges[w].challenger_session_id == k && (
        s.challenges[w].challenger_discord_id == challenger || s.challenges[w].target_discord_id
            == challenger || s.challenges[w].challenger_discord_id == player.sub
            || s.challenges[w].target_discord_id == player.sub) {
        let w = choose|w: Seq<char>|
            #[trigger] s.challenges.contains_key(w) && w != challenge_id
                && s.challenges[w].challenger_session_id == k && (
            s.challenges[w].challenger_discord_id == challenger || s.challenges[w].target_discord_id
                == challenger || s.challenges[w].challenger_discord_id == player.sub
                || s.challenges[w].target_discord_id == player.sub);
        assert(gone.contains_key(w));
    }
}

/// Once a ready check has become a match, the two who play are introduced to each
/// other: the champion hosts, the challenger joins, and each has a session of
/// their own with what they are known by in the lobby.
pub proof fn starting_a_lobby_match_introduces_both(
    s: StateModel,
    lobby_id: Seq<char>,
    room_id: Seq<char>,
    host_session: Seq<char>,
    join_session: Seq<char>,
    now: Timestamp,
    host: LobbyMemberModel,
    join: LobbyMemberModel,
)
    requires
        of_a_clock(now),
        in_order(s),
        s.koh_lobbies.contains_key(lobby_id),
        host_session != join_session,
        ({
            let l = s.koh_lobbies[lobby_id];
            &&& l.pending matches Some(p) && {
                &&& now.nanos <= p.deadline.nanos
                &&& l.members.contains(host) && host.player_id == p.champion
                &&& l.members.contains(join) && join.player_id == p.challenger
            }
        }),
    ensures
        ({
            let l = s.koh_lobbies[lobby_id];
            let (after, res) = lobby_readied(
                s,
                join.player_id,
                lobby_id,
                room_id,
                host_session,
                join_session,
                now,
            );
            let a = after.queue[host_session];
            let b = after.queue[join_session];
            &&& res matches Ok(shown) && shown.your_session == Some(join_session)
                && shown.your_match == b.match_info
            &&& after.queue == s.queue.insert(host_session, a).insert(join_session, b)
            &&& new_for(
                a,
                host_session,
                host.player_id,
                host.username,
                host.stun_endpoint,
                l.app_version,
                l.rom_hash,
                now,
            )
            &&& new_for(
                b,
                join_session,
                join.player_id,
                join.username,
                join.stun_endpoint,
                l.app_version,
                l.rom_hash,
                now,
            )
            &&& introduced(s.config, a, b, host.username, room_id, now)
            &&& after.player_sessions == s.player_sessions.insert(
                host.player_id,
                host_session,
            ).insert(join.player_id, join_session)
            &&& after == (StateModel {
                queue: after.queue,
                player_sessions: after.player_sessions,
                koh_lobbies: after.koh_lobbies,
                ..s
            })
            &&& after.koh_lobbies == s.koh_lobbies.insert(lobby_id, after.koh_lobbies[lobby_id])
            &&& after.koh_lobbies[lobby_id].pending is None
            &&& after.koh_lobbies[lobby_id].queue == l.queue
            &&& after.koh_lobbies[lobby_id].current matches Some(c) && {
                &&& c.host == host.player_id && c.join == join.player_id
                &&& c.host_session == host_session && c.join_session == join_session
                &&& c.room_id == room_id && c.started_at == now
            }
        }),
{
    let l = s.koh_lobbies[lobby_id];
    let player = join.player_id;
    being_seen_keeps_order(l, player, now);
    let heard = seen(l, player, now);
    lemma_seat(l.members, player, 0);
    lemma_seat(heard.members, host.player_id, 0);
    lemma_seat(heard.members, join.player_id, 0);
    let i = choose|i: int| 0 <= i < l.members.len() && l.members[i] == host;
    let j = choose|j: int| 0 <= j < l.members.len() && l.members[j] == join;
    assert(heard.members[i].player_id == host.player_id);
    assert(heard.members[j].player_id == join.player_id);
    let hi = seat(heard.members, host.player_id)->0;
    let ji = seat(heard.members, join.player_id)->0;
    assert(hi == i && ji == j);
    lemma_meeting(s.config, PlayerRole::Host, join.stun_endpoint, join.username, room_id, now);
    lemma_meeting(s.config, PlayerRole::Join, host.stun_endpoint, host.username, room_id, now);
}

// Polling

/// What a player is told of a session: only of their own; that the match is off
/// if either side has called it off; what the session knows of the match while it
/// stands; and nothing of a match before there is one.
pub proof fn players_are_told_where_they_stand(
    s: StateModel,
    player: Seq<char>,
    session_id: Seq<char>,
)
    ensures
        ({
            let res = session_status(s, player, session_id);
            let e = s.queue[session_id];
            let off = e.cancelled || exists|k: Seq<char>|
                {
                    &&& #[trigger] s.queue.contains_key(k) && s.queue[k].cancelled
                    &&& s.queue[k].discord_id != player
                    &&& e.match_info is Some && s.queue[k].match_info is Some
                    &&& s.queue[k].match_info->0.room_id == e.match_info->0.room_id
                };
            &&& !s.queue.contains_key(session_id) ==> (res matches Err(e) && e
                == AppErrorModel::NotFound("Session not found"@))
            &&& s.queue.contains_key(session_id) && e.discord_id != player ==> (res matches Err(e)
                && e == AppErrorModel::Unauthorized("Session does not belong to you"@))
            &&& s.queue.contains_key(session_id) && e.discord_id == player ==> (res matches Ok(r)
                && {
                &&& r.status == MatchStatus::Cancelled <==> off
                &&& r.status == MatchStatus::Matched <==> !off && e.match_info is Some
                &&& r.status == MatchStatus::Queued <==> !off && e.match_info is None
                &&& r.match_info == if off {
                    None
                } else {
                    e.match_info
                }
            })
        }),
{
    let e = s.queue[session_id];
    if e.match_info is Some {
        let room_id = e.match_info->0.room_id;
        if called_off(s.queue, player, room_id) {
            let k = choose|k: Seq<char>|
                #[trigger] s.queue.contains_key(k) && partner(s.queue[k], player, room_id)
                    && s.queue[k].cancelled;
            assert(s.queue.contains_key(k));
        }
        if exists|k: Seq<char>|
            #[trigger] s.queue.contains_key(k) && s.queue[k].cancelled && s.queue[k].discord_id
                != player && s.queue[k].match_info is Some && s.queue[k].match_info->0.room_id
                == room_id {
            let k = choose|k: Seq<char>|
                #[trigger] s.queue.contains_key(k) && s.queue[k].cancelled && s.queue[k].discord_id
                    != player && s.queue[k].match_info is Some && s.queue[k].match_info->0.room_id
                    == room_id;
            assert(partner(s.queue[k], player, room_id));
        }
    }
}

/// Whoever leaves the queue has their current session called off and holds none
/// any more; nothing else changes.
pub proof fn leaving_the_queue_calls_off_one_session(s: StateModel, player: Seq<char>)
    ensures
        ({
            let after = queue_cancelled(s, player);
            let sid = s.player_sessions[player];
            &&& after.player_sessions == s.player_sessions.remove(player)
            &&& after.queue.dom() == s.queue.dom()
            &&& forall|k: Seq<char>| #[trigger]
                s.queue.contains_key(k) ==> after.queue[k] == if s.player_sessions.contains_key(
                    player,
                ) && k == sid {
                    QueueEntryModel { cancelled: true, ..s.queue[k] }
                } else {
                    s.queue[k]
                }
            &&& after == (StateModel {
                queue: after.queue,
                player_sessions: after.player_sessions,
                ..s
            })
        }),
{
    let after = queue_cancelled(s, player);
    assert(after.player_sessions =~= s.player_sessions.remove(player));
    assert(after.queue.dom() =~= s.queue.dom());
}

// Relayed addresses

/// A player's report of a relayed address is kept with their own session, if it is
/// an address and the session is theirs; nothing else changes.
pub proof fn relayed_addresses_are_kept(
    s: StateModel,
    player: Seq<char>,
    session_id: Seq<char>,
    req: TurnReadyRequestModel,
)
    ensures
        ({
            let (after, res) = relay_reported(s, player, session_id, req);
            let e = s.queue[session_id];
            &&& res is Ok <==> req.relayed_addr.contains(':') && s.queue.contains_key(session_id)
                && e.discord_id == player
            &&& res is Ok ==> after == (StateModel {
                queue: s.queue.insert(
                    session_id,
                    QueueEntryModel { relayed_addr: Some(req.relayed_addr), ..e },
                ),
                ..s
            })
            &&& res is Err ==> after == s
            &&& !req.relayed_addr.contains(':') ==> res->Err_0 == AppErrorModel::BadRequest(
                "Invalid relayed_addr"@,
            )
            &&& req.relayed_addr.contains(':') && !s.queue.contains_key(session_id)
                ==> res->Err_0 == AppErrorModel::NotFound("Session not found"@)
            &&& req.relayed_addr.contains(':') && s.queue.contains_key(session_id) && e.discord_id
                != player ==> res->Err_0 == AppErrorModel::Unauthorized(
                "Session does not belong to you"@,
            )
        }),
{
}

/// The address that a player is given is that of another player's session in the
/// same room, and nothing where there is none. It is given for the player's own
/// session only, once there is a match.
pub proof fn relayed_addresses_come_from_the_room(
    s: StateModel,
    player: Seq<char>,
    session_id: Seq<char>,
    order: Seq<Seq<char>>,
)
    requires
        lists_keys(order, s.queue),
    ensures
        ({
            let res = peer_address(s, player, session_id, order);
            let e = s.queue[session_id];
            let found = s.queue.contains_key(session_id);
            let own = found && e.discord_id == player;
            &&& !found ==> res->Err_0 == AppErrorModel::NotFound("Session not found"@)
            &&& found && !own ==> res->Err_0 == AppErrorModel::Unauthorized(
                "Session does not belong to you"@,
            )
            &&& res is Ok <==> own && e.match_info is Some
            &&& own && e.match_info is None ==> (res matches Err(e) && e == AppErrorModel::BadRequest(
                "Not matched yet"@,
            ))
            &&& own && e.match_info is Some ==> (res matches Ok(r) && {
                let info = e.match_info->0;
                ||| exists|k: Seq<char>|
                    {
                        &&& #[trigger] s.queue.contains_key(k) && s.queue[k].discord_id != player
                        &&& s.queue[k].match_info is Some && s.queue[k].match_info->0.room_id
                            == info.room_id
                        &&& r.peer_relayed_addr == s.queue[k].relayed_addr
                    }
                ||| r.peer_relayed_addr is None && forall|k: Seq<char>|
                    !(#[trigger] s.queue.contains_key(k) && s.queue[k].discord_id != player
                        && s.queue[k].match_info is Some && s.queue[k].match_info->0.room_id
                        == info.room_id)
            })
        }),
{
    let e = s.queue[session_id];
    if let Some(info) = e.match_info {
        let p = |x: QueueEntryModel| partner(x, player, info.room_id);
        lemma_first_in(order, s.queue, p);
        match first_partner(order, s.queue, player, info.room_id) {
            Some(k) => {
                assert(s.queue.contains_key(k) && p(s.queue[k]));
            },
            None => {
                assert forall|k: Seq<char>| #[trigger] s.queue.contains_key(k) implies !p(
                    s.queue[k],
                ) by {
                    assert(order.contains(k));
                }
            },
        }
    }
}

// Credentials

/// Relay credentials are for one role in one room until they run out: the user
/// name says so, and the password is its tag under the shared secret.
pub proof fn credentials_are_for_one_role_and_room(
    secret: Seq<char>,
    ip: Seq<char>,
    room_id: Seq<char>,
    role: nat,
    ttl_secs: u64,
    now: nat,
)
    ensures
        ({
            let c = credentials(secret, ip, room_id, role, ttl_secs, now);
            &&& c.uri == "relay://"@ + ip + ":3478"@
            &&& c.username == decimal(role) + seq![':'] + decimal(now + ttl_secs as nat)
                + seq![':'] + room_id
            &&& c.password == hex(hmac_sha256(secret_bytes(secret), encode_utf8(c.username)))
            &&& c.ttl_secs == ttl_secs
        }),
{
}

/// A clock that cannot be read counts as standing at the epoch, and one whose
/// reading leaves no room for the lifetime as standing as late as there is room.
pub proof fn clocks_are_read_to_the_second(reading: Option<u64>, ttl_secs: u64, t: Timestamp)
    ensures
        reading is None ==> second_read(reading, ttl_secs) == 0,
        reading is Some && reading->0 + ttl_secs <= u64::MAX ==> second_read(reading, ttl_secs)
            == reading->0,
        reading is Some && reading->0 + ttl_secs > u64::MAX ==> second_read(reading, ttl_secs)
            + ttl_secs == u64::MAX,
        of_a_clock(t) ==> issued_second(t) == t.nanos as int / 1_000_000_000,
        t.nanos < 0 ==> issued_second(t) == 0,
{
}

} // verus!
