//! What a request does to a lobby, in terms of its members and its line, and what
//! a player is shown of it.

use vstd::prelude::*;
use crate::error::AppErrorModel;
use crate::ids::lobby_code;
use crate::koh::{
    advanced, anyone_but, is_member, lemma_seat, line_of_members, line_without, members_without,
    pending_checked, seat, to_front, watching,
};
use crate::lobbies::{left, lobby_shown, promoted, pushed_front, username_of};
use crate::lobby_laws::{
    being_seen_keeps_order, lemma_filter, lemma_line_without, lemma_members_without, lemma_to_front,
    lemma_update_members, line_is_of_members, lobby_in_order, members_distinct, ranks_sound,
};
use crate::lobby_requests::{
    joined_lobby, line_with, lobby_created, lobby_joined, lobby_left, lobby_readied, lobby_seen,
    members_with, no_code_left, readied, seen,
};
use crate::models::{
    ClaimsModel, CreateLobbyRequestModel, JoinLobbyRequestModel, KohLobbyModel, LobbyMemberModel,
    LobbyRole,
};
use crate::names::clean_lobby_name;
use crate::pairing_laws::of_a_clock;
use crate::state::StateModel;
use crate::time::Timestamp;

verus! {

/// What becomes of a line while nobody plays or is asked: the first two are called
/// up, the first as champion and the second as challenger, who has ten seconds;
/// one alone waits.
pub open spec fn called_up(line: Seq<Seq<char>>, out: KohLobbyModel, now: Timestamp) -> bool {
    &&& out.current is None
    &&& line.len() < 2 ==> out.pending is None && out.queue == line
    &&& line.len() >= 2 ==> {
        &&& out.queue == line.skip(2)
        &&& out.pending matches Some(p) && {
            &&& p.champion == line[0] && p.challenger == line[1]
            &&& p.deadline.nanos == now.nanos + 10_000_000_000
        }
    }
}

/// Calling up from a line of members.
proof fn lemma_rotation(l: KohLobbyModel, now: Timestamp)
    requires
        of_a_clock(now),
        forall|i: int| 0 <= i < l.queue.len() ==> is_member(l.members, #[trigger] l.queue[i]),
    ensures
        ({
            let out = advanced(l, now);
            &&& l.current is Some || l.pending is Some ==> out == l
            &&& l.current is None && l.pending is None ==> called_up(l.queue, out, now)
            &&& out == (KohLobbyModel {
                queue: out.queue,
                pending: out.pending,
                last_activity: out.last_activity,
                ..l
            })
            &&& out.last_activity == l.last_activity || out.last_activity == now
        }),
{
    lemma_filter(l.queue, |id: Seq<char>| is_member(l.members, id));
    assert(line_of_members(l.queue, l.members) == l.queue);
}

// Creating and joining

/// A new lobby is its creator's: the only member, alone in the line, and nobody
/// plays. Only an endpoint without a port is refused.
pub proof fn a_new_lobby_holds_its_creator(
    s: StateModel,
    player: ClaimsModel,
    req: CreateLobbyRequestModel,
    code: Seq<char>,
    now: Timestamp,
)
    ensures
        ({
            let (after, res) = lobby_created(s, player, req, code, now);
            let l = after.koh_lobbies[code];
            &&& res is Ok <==> req.stun_endpoint.contains(':')
            &&& res is Err ==> after == s && res->Err_0 == AppErrorModel::BadRequest(
                "Invalid stun_endpoint"@,
            )
            &&& res matches Ok(answer) ==> {
                &&& answer.lobby_id == code
                &&& after == (StateModel { koh_lobbies: s.koh_lobbies.insert(code, l), ..s })
                &&& l.id == code && l.name == clean_lobby_name(Some(req.name), player.username)
                &&& l.ranked == req.ranked && l.private == req.private && l.format == req.format
                &&& l.host_id == player.sub
                &&& l.app_version == req.app_version && l.rom_hash == req.rom_hash
                &&& l.created_at == now && l.last_activity == now
                &&& l.members.len() == 1
                &&& l.members[0].player_id == player.sub
                &&& l.members[0].username == player.username
                &&& l.members[0].stun_endpoint == req.stun_endpoint
                &&& l.members[0].role == LobbyRole::Queued && l.members[0].last_seen == now
                &&& l.queue == seq![player.sub]
                &&& l.pending is None && l.current is None
            }
        }),
{
}

/// There is no code left for a new lobby only when each is taken: six characters,
/// each a digit or a letter from A to F.
pub proof fn codes_run_out_only_when_all_are_taken(s: StateModel, code: Seq<char>)
    requires
        no_code_left(s),
        code.len() == 6,
        forall|i: int|
            0 <= i < 6 ==> '0' <= #[trigger] code[i] <= '9' || 'A' <= code[i] <= 'F',
    ensures
        s.koh_lobbies.contains_key(code),
{
    assert(lobby_code(code));
}

/// When a lobby cannot be joined, and why; nothing changes then. Otherwise only
/// that lobby changes, and the answer shows it.
pub proof fn joining_a_lobby_is_refused_for_cause(
    s: StateModel,
    player: ClaimsModel,
    lobby_id: Seq<char>,
    req: JoinLobbyRequestModel,
    now: Timestamp,
)
    ensures
        ({
            let (after, res) = lobby_joined(s, player, lobby_id, req, now);
            let l = s.koh_lobbies[lobby_id];
            let addressed = req.stun_endpoint.contains(':');
            let found = addressed && s.koh_lobbies.contains_key(lobby_id);
            let fits = found && l.app_version == req.app_version && l.rom_hash == req.rom_hash;
            &&& res is Ok <==> fits
            &&& !addressed ==> res->Err_0 == AppErrorModel::BadRequest("Invalid stun_endpoint"@)
            &&& addressed && !found ==> res->Err_0 == AppErrorModel::NotFound(
                "Lobby not found or already closed"@,
            )
            &&& found && !fits ==> res->Err_0 == AppErrorModel::BadRequest(
                "Lobby requires matching app version and ROM hash"@,
            )
            &&& res is Err ==> after == s
            &&& res is Ok ==> {
                &&& after == (StateModel {
                    koh_lobbies: s.koh_lobbies.insert(lobby_id, after.koh_lobbies[lobby_id]),
                    ..s
                })
                &&& res->Ok_0 == lobby_shown(s, after.koh_lobbies[lobby_id], player.sub, now)
            }
        }),
{
}

/// Who is a member after joining, and how the line stands: a new member is listed
/// last, a known one keeps place and name; whoever came to watch stands in no
/// line, and whoever came to play stands at its end, unless they play or stand in
/// it already. If nobody plays or is asked, the next two are called up.
pub proof fn joining_a_lobby_takes_the_end_of_the_line(
    s: StateModel,
    player: ClaimsModel,
    lobby_id: Seq<char>,
    req: JoinLobbyRequestModel,
    now: Timestamp,
)
    requires
        of_a_clock(now),
        lobby_in_order(s.koh_lobbies[lobby_id]),
        lobby_joined(s, player, lobby_id, req, now).1 is Ok,
    ensures
        ({
            let l = s.koh_lobbies[lobby_id];
            let out = lobby_joined(s, player, lobby_id, req, now).0.koh_lobbies[lobby_id];
            let role = if req.spectate {
                LobbyRole::Spectating
            } else {
                LobbyRole::Queued
            };
            let known = exists|i: int|
                0 <= i < l.members.len() && (#[trigger] l.members[i]).player_id == player.sub;
            let playing = l.current is Some && (l.current->0.host == player.sub || l.current->0.join
                == player.sub);
            let line = if req.spectate {
                l.queue.filter(|id: Seq<char>| id != player.sub)
            } else if playing || l.queue.contains(player.sub) {
                l.queue
            } else {
                l.queue.push(player.sub)
            };
            &&& !known ==> out.members == l.members.push(
                LobbyMemberModel {
                    player_id: player.sub,
                    username: player.username,
                    stun_endpoint: req.stun_endpoint,
                    role,
                    last_seen: now,
                },
            )
            &&& known ==> out.members.len() == l.members.len() && forall|i: int|
                0 <= i < l.members.len() ==> #[trigger] out.members[i] == if l.members[i].player_id
                    == player.sub {
                    LobbyMemberModel {
                        stun_endpoint: req.stun_endpoint,
                        role,
                        last_seen: now,
                        ..l.members[i]
                    }
                } else {
                    l.members[i]
                }
            &&& l.current is Some || l.pending is Some ==> out.queue == line && out.pending
                == l.pending && out.current == l.current
            &&& l.current is None && l.pending is None ==> called_up(line, out, now)
            &&& out == (KohLobbyModel {
                members: out.members,
                queue: out.queue,
                pending: out.pending,
                last_activity: now,
                ..l
            })
        }),
{
    let l = s.koh_lobbies[lobby_id];
    let role = if req.spectate {
        LobbyRole::Spectating
    } else {
        LobbyRole::Queued
    };
    let members = members_with(l.members, player, req.stun_endpoint, role, now);
    lemma_seat(l.members, player.sub, 0);
    match seat(l.members, player.sub) {
        Some(i) => {
            let m = LobbyMemberModel {
                stun_endpoint: req.stun_endpoint,
                role,
                last_seen: now,
                ..l.members[i]
            };
            lemma_update_members(l.members, i, m);
            assert(members[i].player_id == player.sub);
            assert(l.members[i].player_id == player.sub);
            assert forall|j: int| 0 <= j < l.members.len() implies #[trigger] members[j] == (
            if l.members[j].player_id == player.sub {
                LobbyMemberModel {
                    stun_endpoint: req.stun_endpoint,
                    role,
                    last_seen: now,
                    ..l.members[j]
                }
            } else {
                l.members[j]
            }) by {
                if j < i {
                    assert(l.members[j].player_id != l.members[i].player_id);
                } else if j > i {
                    assert(l.members[i].player_id != l.members[j].player_id);
                }
            }
        },
        None => {
            assert(members[l.members.len() as int].player_id == player.sub);
        },
    }
    assert forall|id: Seq<char>| is_member(l.members, id) implies #[trigger] is_member(
        members,
        id,
    ) by {
        let j = choose|j: int|
            0 <= j < l.members.len() && (#[trigger] l.members[j]).player_id == id;
        assert(members[j].player_id == id);
    }
    assert(is_member(members, player.sub));
    let line = line_with(l, player.sub, req.spectate);
    assert(anyone_but(player.sub) =~= (|id: Seq<char>| id != player.sub));
    if req.spectate {
        lemma_line_without(l.queue, l.members, player.sub);
    }
    let next = KohLobbyModel { members, queue: line, last_activity: now, ..l };
    assert forall|i: int| 0 <= i < line.len() implies is_member(members, #[trigger] line[i]) by {
        if req.spectate {
            assert(is_member(l.members, line[i]));
        } else if i < l.queue.len() {
            assert(line[i] == l.queue[i]);
            assert(is_member(l.members, l.queue[i]));
        }
    }
    lemma_rotation(next, now);
    assert(joined_lobby(l, player, req, now) == advanced(next, now));
}

// Ready checks

/// Whoever is heard of while no ready check has run out changes nothing in a lobby
/// but when they were last seen. Only that lobby changes, and the answer shows it.
pub proof fn being_seen_changes_little(
    s: StateModel,
    player: Seq<char>,
    lobby_id: Seq<char>,
    now: Timestamp,
)
    requires
        of_a_clock(now),
        s.koh_lobbies.contains_key(lobby_id) ==> lobby_in_order(s.koh_lobbies[lobby_id]),
    ensures
        ({
            let (after, res) = lobby_seen(s, player, lobby_id, now);
            let l = s.koh_lobbies[lobby_id];
            let out = after.koh_lobbies[lobby_id];
            let found = s.koh_lobbies.contains_key(lobby_id);
            &&& res is Ok <==> found
            &&& res is Err ==> after == s && res->Err_0 == AppErrorModel::NotFound(
                "Lobby not found or already closed"@,
            )
            &&& found ==> {
                &&& after == (StateModel {
                    koh_lobbies: s.koh_lobbies.insert(lobby_id, out),
                    ..s
                })
                &&& res->Ok_0 == lobby_shown(s, out, player, now)
                &&& out.members.len() == l.members.len()
                &&& l.pending is None || now.nanos <= l.pending->0.deadline.nanos ==> {
                    &&& out == (KohLobbyModel { members: out.members, ..l })
                    &&& forall|i: int|
                        0 <= i < l.members.len() ==> #[trigger] out.members[i] == (
                        LobbyMemberModel {
                            last_seen: if l.members[i].player_id == player {
                                now
                            } else {
                                l.members[i].last_seen
                            },
                            ..l.members[i]
                        })
                }
            }
        }),
{
    if s.koh_lobbies.contains_key(lobby_id) {
        let l = s.koh_lobbies[lobby_id];
        lemma_seen(l, player, now);
        being_seen_keeps_order(l, player, now);
        let heard = seen(l, player, now);
        if !(l.pending is Some && now.nanos > l.pending->0.deadline.nanos) {
            assert(heard.queue == l.queue);
            lemma_filter(heard.queue, |id: Seq<char>| is_member(heard.members, id));
            assert(line_of_members(heard.queue, heard.members) == heard.queue);
            assert(advanced(heard, now) == heard);
        } else {
            lemma_expired(heard, now);
        }
    }
}

/// When each member was last seen, once one has been heard of.
proof fn lemma_seen(l: KohLobbyModel, player: Seq<char>, now: Timestamp)
    requires
        members_distinct(l.members),
    ensures
        ({
            let out = seen(l, player, now);
            &&& out == (KohLobbyModel { members: out.members, ..l })
            &&& out.members.len() == l.members.len()
            &&& forall|i: int|
                0 <= i < l.members.len() ==> #[trigger] out.members[i] == (LobbyMemberModel {
                    last_seen: if l.members[i].player_id == player {
                        now
                    } else {
                        l.members[i].last_seen
                    },
                    ..l.members[i]
                })
        }),
{
    lemma_seat(l.members, player, 0);
    if let Some(i) = seat(l.members, player) {
        assert forall|j: int| 0 <= j < l.members.len() && j != i implies (
        #[trigger] l.members[j]).player_id != player by {
            if j > i {
                assert(l.members[i].player_id != l.members[j].player_id);
            }
        }
    }
}

/// What becomes of a lobby whose ready check has run out.
proof fn lemma_expired(l: KohLobbyModel, now: Timestamp)
    requires
        of_a_clock(now),
        lobby_in_order(l),
        l.pending matches Some(p) && now.nanos > p.deadline.nanos,
    ensures
        ({
            let p = l.pending->0;
            let out = advanced(pending_checked(l, now), now);
            let front = if l.queue.contains(p.champion) {
                l.queue
            } else {
                seq![p.champion] + l.queue
            };
            let line = front.filter(|id: Seq<char>| id != p.challenger);
            &&& pending_checked(l, now) == out
            &&& out == (KohLobbyModel {
                members: out.members,
                queue: out.queue,
                pending: out.pending,
                last_activity: now,
                ..l
            })
            &&& out.members.len() == l.members.len()
            &&& forall|i: int|
                0 <= i < l.members.len() ==> #[trigger] out.members[i] == (LobbyMemberModel {
                    role: if l.members[i].player_id == p.challenger {
                        LobbyRole::Spectating
                    } else {
                        l.members[i].role
                    },
                    ..l.members[i]
                })
            &&& called_up(line, out, now)
            &&& !line.contains(p.challenger)
        }),
{
    let p = l.pending->0;
    let free = KohLobbyModel { pending: None, ..l };
    lemma_to_front(free, p.champion);
    let freed = to_front(free, p.champion);
    lemma_line_without(freed.queue, freed.members, p.challenger);
    lemma_seat(freed.members, p.challenger, 0);
    let members = watching(freed.members, p.challenger);
    if let Some(i) = seat(freed.members, p.challenger) {
        let m = LobbyMemberModel { role: LobbyRole::Spectating, ..freed.members[i] };
        lemma_update_members(freed.members, i, m);
        assert forall|j: int| 0 <= j < l.members.len() && j != i implies (
        #[trigger] l.members[j]).player_id != p.challenger by {
            if j > i {
                assert(l.members[i].player_id != l.members[j].player_id);
            }
        }
    }
    assert(anyone_but(p.challenger) =~= (|id: Seq<char>| id != p.challenger));
    let next = KohLobbyModel {
        queue: line_without(freed.queue, p.challenger),
        members,
        last_activity: now,
        ..freed
    };
    assert forall|i: int| 0 <= i < next.queue.len() implies is_member(
        next.members,
        #[trigger] next.queue[i],
    ) by {
        assert(is_member(freed.members, next.queue[i]));
    }
    lemma_rotation(next, now);
    let once = advanced(next, now);
    assert(pending_checked(l, now) == once);
    if once.pending is None {
        assert(once.queue == next.queue);
        lemma_rotation(once, now);
    }
}

/// Once a ready check has run out, the first request that looks at the lobby ends
/// it: the champion goes back to the head of the line, the challenger watches and
/// stands in no line, and the next two are called up.
pub proof fn a_ready_check_runs_out(
    s: StateModel,
    player: Seq<char>,
    lobby_id: Seq<char>,
    now: Timestamp,
)
    requires
        of_a_clock(now),
        s.koh_lobbies.contains_key(lobby_id),
        lobby_in_order(s.koh_lobbies[lobby_id]),
        s.koh_lobbies[lobby_id].pending matches Some(p) && now.nanos > p.deadline.nanos,
    ensures
        ({
            let l = s.koh_lobbies[lobby_id];
            let p = l.pending->0;
            let out = lobby_seen(s, player, lobby_id, now).0.koh_lobbies[lobby_id];
            let front = if l.queue.contains(p.champion) {
                l.queue
            } else {
                seq![p.champion] + l.queue
            };
            let line = front.filter(|id: Seq<char>| id != p.challenger);
            &&& called_up(line, out, now)
            &&& out.members.len() == l.members.len()
            &&& forall|i: int|
                0 <= i < l.members.len() ==> #[trigger] out.members[i] == (LobbyMemberModel {
                    role: if l.members[i].player_id == p.challenger {
                        LobbyRole::Spectating
                    } else {
                        l.members[i].role
                    },
                    last_seen: if l.members[i].player_id == player {
                        now
                    } else {
                        l.members[i].last_seen
                    },
                    ..l.members[i]
                })
            &&& out == (KohLobbyModel {
                members: out.members,
                queue: out.queue,
                pending: out.pending,
                last_activity: now,
                ..l
            })
        }),
{
    let l = s.koh_lobbies[lobby_id];
    lemma_seen(l, player, now);
    being_seen_keeps_order(l, player, now);
    lemma_expired(seen(l, player, now), now);
}

/// Whoever says that they are ready without being asked, or too late, is only
/// seen: the champion, someone in the line, and the challenger whose time has run
/// out.
pub proof fn readiness_counts_from_the_challenger_in_time(
    s: StateModel,
    player: Seq<char>,
    lobby_id: Seq<char>,
    room_id: Seq<char>,
    host_session: Seq<char>,
    join_session: Seq<char>,
    now: Timestamp,
)
    requires
        of_a_clock(now),
        s.koh_lobbies.contains_key(lobby_id) ==> lobby_in_order(s.koh_lobbies[lobby_id]),
        ({
            let p = s.koh_lobbies[lobby_id].pending;
            ||| !s.koh_lobbies.contains_key(lobby_id)
            ||| p is None
            ||| p->0.challenger != player && now.nanos <= p->0.deadline.nanos
            ||| p->0.challenger == player && now.nanos > p->0.deadline.nanos
        }),
    ensures
        lobby_readied(s, player, lobby_id, room_id, host_session, join_session, now) == lobby_seen(
            s,
            player,
            lobby_id,
            now,
        ),
{
    if s.koh_lobbies.contains_key(lobby_id) {
        let l = s.koh_lobbies[lobby_id];
        lemma_seen(l, player, now);
        being_seen_keeps_order(l, player, now);
        let heard = seen(l, player, now);
        if l.pending is Some && now.nanos > l.pending->0.deadline.nanos {
            lemma_expired(heard, now);
            let p = l.pending->0;
            let front = if l.queue.contains(p.champion) {
                l.queue
            } else {
                seq![p.champion] + l.queue
            };
            let line = front.filter(|id: Seq<char>| id != p.challenger);
            if line.len() >= 2 {
                assert(line.contains(line[1]));
            }
        }
    }
}

/// A lobby in which whatever is due has been done.
proof fn lemma_nothing_due(l: KohLobbyModel, player: Seq<char>, now: Timestamp)
    requires
        of_a_clock(now),
        lobby_in_order(l),
    ensures
        ({
            let m = advanced(pending_checked(seen(l, player, now), now), now);
            &&& m == pending_checked(seen(l, player, now), now)
            &&& seen(m, player, now) == m
            &&& pending_checked(m, now) == m
        }),
{
    lemma_seen(l, player, now);
    being_seen_keeps_order(l, player, now);
    let heard = seen(l, player, now);
    let m = advanced(pending_checked(heard, now), now);
    if l.pending is Some && now.nanos > l.pending->0.deadline.nanos {
        lemma_expired(heard, now);
    } else {
        lemma_filter(heard.queue, |id: Seq<char>| is_member(heard.members, id));
        assert(line_of_members(heard.queue, heard.members) == heard.queue);
        assert(m == heard);
    }
    assert forall|i: int| 0 <= i < m.members.len() implies {
        &&& (#[trigger] m.members[i]).player_id == l.members[i].player_id
        &&& m.members[i].player_id == player ==> m.members[i].last_seen == now
    } by {
        assert(heard.members[i].player_id == l.members[i].player_id);
    }
    lemma_seat(m.members, player, 0);
    if let Some(i) = seat(m.members, player) {
        assert(m.members[i].last_seen == now);
        assert(m.members.update(
            i,
            LobbyMemberModel { last_seen: now, ..m.members[i] },
        ) =~= m.members);
    }
}

/// Saying that one is ready counts as being seen first: whatever is due in the
/// lobby is done before, and then the challenger of the check that stands may
/// start the match.
pub proof fn readiness_comes_after_what_is_due(
    s: StateModel,
    player: Seq<char>,
    lobby_id: Seq<char>,
    room_id: Seq<char>,
    host_session: Seq<char>,
    join_session: Seq<char>,
    now: Timestamp,
)
    requires
        of_a_clock(now),
        s.koh_lobbies.contains_key(lobby_id),
        lobby_in_order(s.koh_lobbies[lobby_id]),
    ensures
        lobby_readied(s, player, lobby_id, room_id, host_session, join_session, now)
            == lobby_readied(
            lobby_seen(s, player, lobby_id, now).0,
            player,
            lobby_id,
            room_id,
            host_session,
            join_session,
            now,
        ),
{
    let l = s.koh_lobbies[lobby_id];
    lemma_nothing_due(l, player, now);
    let m = pending_checked(seen(l, player, now), now);
    let mid = lobby_seen(s, player, lobby_id, now).0;
    assert(mid == (StateModel { koh_lobbies: s.koh_lobbies.insert(lobby_id, m), ..s }));
    let (s1, l1) = readied(s, l, player, room_id, host_session, join_session, now);
    let (s2, l2) = readied(mid, m, player, room_id, host_session, join_session, now);
    assert(l1 == l2);
    assert(s2 == (StateModel { koh_lobbies: mid.koh_lobbies, ..s1 }));
    assert(s1.koh_lobbies == s.koh_lobbies);
    assert(s1.koh_lobbies.insert(lobby_id, l1) =~= s2.koh_lobbies.insert(lobby_id, l2));
    lemma_shown_alike(s1, s2, l1, player, now);
}

/// What is shown of a lobby rests on sessions and ratings.
proof fn lemma_shown_alike(
    a: StateModel,
    b: StateModel,
    l: KohLobbyModel,
    caller: Seq<char>,
    now: Timestamp,
)
    requires
        a.queue == b.queue,
        a.ratings == b.ratings,
    ensures
        lobby_shown(a, l, caller, now) == lobby_shown(b, l, caller, now),
{
    assert(lobby_shown(a, l, caller, now).members =~= lobby_shown(b, l, caller, now).members);
}

/// A ready check of which one has gone comes to nothing: no session is opened,
/// whoever is still a member goes to the head of the line, and the next two are
/// called up.
pub proof fn a_check_without_both_comes_to_nothing(
    s: StateModel,
    l: KohLobbyModel,
    room_id: Seq<char>,
    host_session: Seq<char>,
    join_session: Seq<char>,
    now: Timestamp,
)
    requires
        of_a_clock(now),
        l.current is None,
        line_is_of_members(l.queue, l.members),
        l.pending matches Some(p) && !(is_member(l.members, p.champion) && is_member(
            l.members,
            p.challenger,
        )),
    ensures
        ({
            let (after, out) = promoted(s, l, room_id, host_session, join_session, now);
            let p = l.pending->0;
            let line = if is_member(l.members, p.champion) {
                seq![p.champion] + l.queue
            } else if is_member(l.members, p.challenger) {
                seq![p.challenger] + l.queue
            } else {
                l.queue
            };
            &&& after == s
            &&& called_up(line, out, now)
            &&& out == (KohLobbyModel {
                queue: out.queue,
                pending: out.pending,
                last_activity: out.last_activity,
                ..l
            })
        }),
{
    let p = l.pending->0;
    lemma_seat(l.members, p.champion, 0);
    lemma_seat(l.members, p.challenger, 0);
    if let Some(i) = seat(l.members, p.champion) {
        assert(l.members[i].player_id == p.champion);
    }
    if let Some(i) = seat(l.members, p.challenger) {
        assert(l.members[i].player_id == p.challenger);
    }
    let idle = KohLobbyModel { pending: None, ..l };
    let next = pushed_front(pushed_front(idle, p.champion), p.challenger);
    assert forall|i: int| 0 <= i < next.queue.len() implies is_member(
        next.members,
        #[trigger] next.queue[i],
    ) by {
        if next.queue.len() > l.queue.len() && i > 0 {
            assert(next.queue[i] == l.queue[i - 1]);
        } else if next.queue.len() == l.queue.len() {
            assert(next.queue[i] == l.queue[i]);
        }
    }
    lemma_rotation(next, now);
}

// Leaving

/// Whoever leaves a lobby is no member and stands in no line. Whoever they played
/// against, or were asked with, goes to the head of the line, unless they stand in
/// it already, and the next two are called up. The sessions of a match that is
/// left are gone. A lobby without members is closed.
pub proof fn leaving_frees_the_other(
    s: StateModel,
    player: Seq<char>,
    lobby_id: Seq<char>,
    now: Timestamp,
)
    requires
        of_a_clock(now),
        s.koh_lobbies.contains_key(lobby_id),
        lobby_in_order(s.koh_lobbies[lobby_id]),
    ensures
        ({
            let after = lobby_left(s, player, lobby_id, now);
            let l = s.koh_lobbies[lobby_id];
            let out = after.koh_lobbies[lobby_id];
            let members = l.members.filter(|m: LobbyMemberModel| m.player_id != player);
            let rest = l.queue.filter(|id: Seq<char>| id != player);
            let in_match = l.current is Some && (l.current->0.host == player || l.current->0.join
                == player);
            let in_check = l.pending is Some && (l.pending->0.champion == player
                || l.pending->0.challenger == player);
            let other = if in_match {
                if l.current->0.host == player {
                    l.current->0.join
                } else {
                    l.current->0.host
                }
            } else {
                if l.pending->0.champion == player {
                    l.pending->0.challenger
                } else {
                    l.pending->0.champion
                }
            };
            let line = if (in_match || in_check) && !rest.contains(other) {
                seq![other] + rest
            } else {
                rest
            };
            &&& !in_match ==> after.queue == s.queue
            &&& in_match ==> after.queue == s.queue.remove(l.current->0.host_session).remove(
                l.current->0.join_session,
            )
            &&& members.len() == 0 ==> after == (StateModel {
                queue: after.queue,
                koh_lobbies: s.koh_lobbies.remove(lobby_id),
                lobby_thumbs: s.lobby_thumbs.remove(lobby_id),
                ..s
            })
            &&& members.len() > 0 ==> {
                &&& after == (StateModel {
                    queue: after.queue,
                    koh_lobbies: s.koh_lobbies.insert(lobby_id, out),
                    ..s
                })
                &&& out == (KohLobbyModel {
                    members,
                    queue: out.queue,
                    pending: out.pending,
                    current: out.current,
                    last_activity: now,
                    ..l
                })
                &&& in_match || in_check || (l.current is None && l.pending is None)
                    ==> called_up(line, out, now)
                &&& !in_match && !in_check && (l.current is Some || l.pending is Some)
                    ==> out.queue == rest && out.pending == l.pending && out.current == l.current
            }
        }),
{
    let l = s.koh_lobbies[lobby_id];
    lemma_members_without(l.members, player);
    lemma_line_without(l.queue, l.members, player);
    assert(anyone_but(player) =~= (|id: Seq<char>| id != player));
    let gone = KohLobbyModel {
        queue: line_without(l.queue, player),
        members: members_without(l.members, player),
        ..l
    };
    assert(ranks_sound(gone));
    let in_match = l.current is Some && (l.current->0.host == player || l.current->0.join
        == player);
    let in_check = l.pending is Some && (l.pending->0.champion == player || l.pending->0.challenger
        == player);
    let next = if in_match {
        let c = l.current->0;
        let other = if c.host == player {
            c.join
        } else {
            c.host
        };
        let free = KohLobbyModel { current: None, ..gone };
        lemma_to_front(free, other);
        assert(is_member(gone.members, other));
        KohLobbyModel { last_activity: now, ..to_front(free, other) }
    } else if in_check {
        let p = l.pending->0;
        let other = if p.champion == player {
            p.challenger
        } else {
            p.champion
        };
        let free = KohLobbyModel { pending: None, ..gone };
        lemma_to_front(free, other);
        assert(is_member(gone.members, other));
        KohLobbyModel { last_activity: now, ..to_front(free, other) }
    } else {
        KohLobbyModel { last_activity: now, ..gone }
    };
    assert(ranks_sound(next));
    lemma_rotation(next, now);
    assert(left(l, player, now) == advanced(next, now));
    let after = lobby_left(s, player, lobby_id, now);
    if in_match {
        assert(after.queue =~= s.queue.remove(l.current->0.host_session).remove(
            l.current->0.join_session,
        ));
    } else {
        assert(after.queue =~= s.queue);
    }
}

/// Leaving a lobby that is not there changes nothing.
pub proof fn leaving_nothing_changes_nothing(
    s: StateModel,
    player: Seq<char>,
    lobby_id: Seq<char>,
    now: Timestamp,
)
    requires
        !s.koh_lobbies.contains_key(lobby_id),
    ensures
        lobby_left(s, player, lobby_id, now) == s,
{
}

// What is shown

/// Whether a name is that of a member.
pub open spec fn named(
    members: Seq<LobbyMemberModel>,
    player: Seq<char>,
    username: Seq<char>,
) -> bool {
    exists|i: int|
        {
            &&& 0 <= i < members.len()
            &&& (#[trigger] members[i]).player_id == player
            &&& members[i].username == username
        }
}

/// A member's name.
proof fn lemma_named(members: Seq<LobbyMemberModel>, player: Seq<char>)
    requires
        is_member(members, player),
    ensures
        named(members, player, username_of(members, player)),
{
    lemma_seat(members, player, 0);
    let i = choose|i: int| 0 <= i < members.len() && (#[trigger] members[i]).player_id == player;
    assert(members[i].player_id == player);
    let j = seat(members, player)->0;
    assert(members[j].player_id == player);
}

/// A lobby is shown as it is: each member in place, with their rating where it is
/// known and whether they play; the line by names; those who play with their
/// sessions, the host first; and those who are asked, the champion first, with the
/// whole seconds that are left.
pub proof fn a_lobby_is_shown_as_it_is(
    s: StateModel,
    l: KohLobbyModel,
    caller: Seq<char>,
    now: Timestamp,
)
    requires
        lobby_in_order(l),
    ensures
        ({
            let shown = lobby_shown(s, l, caller, now);
            &&& shown.id == l.id && shown.name == l.name && shown.format == l.format
            &&& shown.ranked == l.ranked && shown.private == l.private
            &&& shown.members.len() == l.members.len()
            &&& forall|i: int|
                #![trigger shown.members[i]]
                0 <= i < l.members.len() ==> {
                    let (m, v) = (l.members[i], shown.members[i]);
                    &&& v.player_id == m.player_id && v.username == m.username && v.role == m.role
                    &&& v.rating is Some <==> s.ratings.contains_key(m.player_id)
                    &&& v.rating is Some ==> v.rating->0 == s.ratings[m.player_id].rating
                    &&& v.in_match <==> l.current is Some && (l.current->0.host == m.player_id
                        || l.current->0.join == m.player_id)
                }
            &&& shown.queue.len() == l.queue.len()
            &&& forall|i: int|
                0 <= i < l.queue.len() ==> named(l.members, l.queue[i], #[trigger] shown.queue[i])
            &&& shown.current is Some <==> l.current is Some
            &&& shown.current matches Some(v) ==> {
                &&& named(l.members, l.current->0.host, v.host_username)
                &&& named(l.members, l.current->0.join, v.join_username)
                &&& v.host_session == l.current->0.host_session
                &&& v.join_session == l.current->0.join_session
            }
            &&& shown.ready_check is Some <==> l.pending is Some
            &&& shown.ready_check matches Some(v) ==> {
                let left = l.pending->0.deadline.nanos - now.nanos;
                &&& named(l.members, l.pending->0.champion, v.champion_username)
                &&& named(l.members, l.pending->0.challenger, v.challenger_username)
                &&& v.you_are_challenger <==> l.pending->0.challenger == caller
                &&& left <= 0 ==> v.seconds_left == 0
                &&& 0 < left < 1_000_000_000_000_000_000 ==> v.seconds_left == left / 1_000_000_000
            }
        }),
{
    let shown = lobby_shown(s, l, caller, now);
    assert forall|i: int| 0 <= i < l.queue.len() implies named(
        l.members,
        l.queue[i],
        #[trigger] shown.queue[i],
    ) by {
        lemma_named(l.members, l.queue[i]);
    }
    if let Some(c) = l.current {
        lemma_named(l.members, c.host);
        lemma_named(l.members, c.join);
    }
    if let Some(p) = l.pending {
        lemma_named(l.members, p.champion);
        lemma_named(l.members, p.challenger);
    }
}

/// What a lobby says to whoever asks: their place in the line counted from the
/// head, their role if they are a member, and, while they play, their own session
/// with what it knows of the match.
pub proof fn a_lobby_tells_callers_of_themselves(
    s: StateModel,
    l: KohLobbyModel,
    caller: Seq<char>,
    now: Timestamp,
)
    requires
        lobby_in_order(l),
        l.queue.len() <= usize::MAX,
    ensures
        ({
            let shown = lobby_shown(s, l, caller, now);
            &&& shown.your_position is Some <==> l.queue.contains(caller)
            &&& shown.your_position matches Some(i) ==> i < l.queue.len() && l.queue[i as int]
                == caller
            &&& shown.your_role is Some <==> exists|i: int|
                0 <= i < l.members.len() && (#[trigger] l.members[i]).player_id == caller
            &&& forall|i: int|
                0 <= i < l.members.len() && (#[trigger] l.members[i]).player_id == caller
                    ==> shown.your_role == Some(l.members[i].role)
            &&& shown.your_session is Some <==> l.current is Some && (l.current->0.host == caller
                || l.current->0.join == caller)
            &&& l.current is Some && l.current->0.host == caller ==> shown.your_session == Some(
                l.current->0.host_session,
            )
            &&& l.current is Some && l.current->0.join == caller ==> shown.your_session == Some(
                l.current->0.join_session,
            )
            &&& shown.your_match == if shown.your_session is Some && s.queue.contains_key(
                shown.your_session->0,
            ) {
                s.queue[shown.your_session->0].match_info
            } else {
                None
            }
        }),
{
    lemma_seat(l.members, caller, 0);
    let shown = lobby_shown(s, l, caller, now);
    l.queue.index_of_first_ensures(caller);
    if let Some(i) = seat(l.members, caller) {
        assert forall|j: int|
            0 <= j < l.members.len() && (#[trigger] l.members[j]).player_id == caller implies j
            == i by {
            if j > i {
                assert(l.members[i].player_id != l.members[j].player_id);
            }
        }
        assert(l.members[i].player_id == caller);
    }
}

} // verus!
