//! What always holds of a lobby: members are listed once, the line holds members
//! only and each of them once, at most one pair of members plays or is asked, and
//! the line never stands still while two could play.

use vstd::prelude::*;
use crate::koh::{
    advanced, anyone_but, is_member, lemma_seat, line_of_members, line_without, members_without,
    pending_checked, ready_check_expired, seat, to_back, to_front, watching,
};
use crate::lobbies::{asked, left, plays, promoted};
use crate::lobby_requests::{
    decided, joined_lobby, line_with, members_with, new_lobby, readied, seen,
};
use crate::models::{
    ActiveMatchModel, ClaimsModel, CreateLobbyRequestModel, JoinLobbyRequestModel, KohLobbyModel,
    LobbyMemberModel, LobbyRole,
};
use crate::state::StateModel;
use crate::sweeper::{all_left, idle, idle_players, lobby_swept, unstuck};
use crate::time::{secs_later, Timestamp};

verus! {

// The order of a lobby

/// Every member is listed once.
pub open spec fn members_distinct(members: Seq<LobbyMemberModel>) -> bool {
    forall|i: int, j: int|
        0 <= i < j < members.len() ==> (#[trigger] members[i]).player_id != (
        #[trigger] members[j]).player_id
}

/// Whoever stands in the line is a member.
pub open spec fn line_is_of_members(
    line: Seq<Seq<char>>,
    members: Seq<LobbyMemberModel>,
) -> bool {
    forall|i: int| 0 <= i < line.len() ==> is_member(members, #[trigger] line[i])
}

/// Two different members.
pub open spec fn two_members(
    members: Seq<LobbyMemberModel>,
    a: Seq<char>,
    b: Seq<char>,
) -> bool {
    a != b && is_member(members, a) && is_member(members, b)
}

/// Members and line are in order, and so are those who play or are asked.
pub open spec fn lobby_sound(l: KohLobbyModel) -> bool {
    &&& members_distinct(l.members)
    &&& l.queue.no_duplicates()
    &&& line_is_of_members(l.queue, l.members)
    &&& !(l.current is Some && l.pending is Some)
    &&& l.current matches Some(c) ==> two_members(l.members, c.host, c.join)
    &&& l.pending matches Some(p) ==> two_members(l.members, p.champion, p.challenger)
}

/// The line does not stand still while two could play.
pub open spec fn in_rotation(l: KohLobbyModel) -> bool {
    l.current is Some || l.pending is Some || l.queue.len() < 2
}

/// A lobby is in order.
pub open spec fn lobby_in_order(l: KohLobbyModel) -> bool {
    lobby_sound(l) && in_rotation(l)
}

// Filtering

/// What a filter keeps.
pub proof fn lemma_filter<A>(s: Seq<A>, p: spec_fn(A) -> bool)
    ensures
        forall|x: A| #[trigger] s.filter(p).contains(x) <==> s.contains(x) && p(x),
        s.no_duplicates() ==> s.filter(p).no_duplicates(),
        (forall|i: int| 0 <= i < s.len() ==> p(#[trigger] s[i])) ==> s.filter(p) == s,
    decreases s.len(),
{
    reveal(Seq::filter);
    if s.len() > 0 {
        let rest = s.drop_last();
        lemma_filter(rest, p);
        let out = s.filter(p);
        assert(s == rest.push(s.last()));
        assert forall|x: A| #[trigger] out.contains(x) <==> s.contains(x) && p(x) by {
            if s.contains(x) && p(x) {
                let i = choose|i: int| 0 <= i < s.len() && s[i] == x;
                if i < rest.len() {
                    assert(rest[i] == x);
                    assert(rest.filter(p).contains(x));
                    let j = choose|j: int| 0 <= j < rest.filter(p).len() && rest.filter(p)[j] == x;
                    assert(out[j] == x);
                } else {
                    assert(out[rest.filter(p).len() as int] == x);
                }
            }
            if out.contains(x) {
                let i = choose|i: int| 0 <= i < out.len() && out[i] == x;
                if i < rest.filter(p).len() {
                    assert(rest.filter(p)[i] == x);
                    assert(rest.filter(p).contains(x));
                    let j = choose|j: int| 0 <= j < rest.len() && rest[j] == x;
                    assert(s[j] == x);
                } else {
                    assert(s[s.len() - 1] == x);
                }
            }
        }
        if s.no_duplicates() {
            assert(rest.no_duplicates());
            if p(s.last()) {
                assert(!rest.filter(p).contains(s.last())) by {
                    if rest.contains(s.last()) {
                        let j = choose|j: int| 0 <= j < rest.len() && rest[j] == s.last();
                        assert(s[j] == s[s.len() - 1]);
                    }
                }
                assert forall|i: int, j: int|
                    0 <= i < out.len() && 0 <= j < out.len() && i != j implies out[i] != out[j] by {
                    if i == rest.filter(p).len() {
                        assert(rest.filter(p).contains(rest.filter(p)[j]));
                    } else if j == rest.filter(p).len() {
                        assert(rest.filter(p).contains(rest.filter(p)[i]));
                    }
                }
            }
        }
        if forall|i: int| 0 <= i < s.len() ==> p(#[trigger] s[i]) {
            assert forall|i: int| 0 <= i < rest.len() implies p(#[trigger] rest[i]) by {
                assert(s[i] == rest[i]);
            }
            assert(p(s[s.len() - 1]));
        }
    } else {
        assert(s.filter(p) == s);
    }
}

/// Distinct members stay distinct.
proof fn lemma_filter_distinct(
    members: Seq<LobbyMemberModel>,
    p: spec_fn(LobbyMemberModel) -> bool,
)
    requires
        members_distinct(members),
    ensures
        members_distinct(members.filter(p)),
    decreases members.len(),
{
    reveal(Seq::filter);
    if members.len() > 0 {
        let rest = members.drop_last();
        assert(members_distinct(rest)) by {
            assert forall|i: int, j: int| 0 <= i < j < rest.len() implies (
            #[trigger] rest[i]).player_id != (#[trigger] rest[j]).player_id by {
                assert(members[i] == rest[i] && members[j] == rest[j]);
            }
        }
        lemma_filter_distinct(rest, p);
        lemma_filter(rest, p);
        let kept = rest.filter(p);
        let out = members.filter(p);
        assert forall|i: int, j: int| 0 <= i < j < out.len() implies (#[trigger] out[i]).player_id
            != (#[trigger] out[j]).player_id by {
            if j == kept.len() {
                assert(kept.contains(kept[i]));
                let w = choose|w: int| 0 <= w < rest.len() && rest[w] == kept[i];
                assert(members[w].player_id != members[members.len() - 1].player_id);
            }
        }
    }
}

/// Who is a member once one has gone.
pub proof fn lemma_members_without(members: Seq<LobbyMemberModel>, player: Seq<char>)
    ensures
        forall|id: Seq<char>| #[trigger]
            is_member(members_without(members, player), id) <==> is_member(members, id) && id
                != player,
        members_distinct(members) ==> members_distinct(members_without(members, player)),
{
    let p = |m: LobbyMemberModel| m.player_id != player;
    let out = members_without(members, player);
    lemma_filter(members, p);
    if members_distinct(members) {
        lemma_filter_distinct(members, p);
    }
    assert forall|id: Seq<char>| #[trigger] is_member(out, id) <==> is_member(members, id) && id
        != player by {
        if is_member(out, id) {
            let i = choose|i: int| 0 <= i < out.len() && (#[trigger] out[i]).player_id == id;
            assert(out.contains(out[i]));
            let j = choose|j: int| 0 <= j < members.len() && members[j] == out[i];
            assert(members[j].player_id == id);
        }
        if is_member(members, id) && id != player {
            let i = choose|i: int|
                0 <= i < members.len() && (#[trigger] members[i]).player_id == id;
            assert(members.contains(members[i]));
            assert(out.contains(members[i]));
            let j = choose|j: int| 0 <= j < out.len() && out[j] == members[i];
            assert(out[j].player_id == id);
        }
    }
}

/// The line once one has gone.
pub proof fn lemma_line_without(
    line: Seq<Seq<char>>,
    members: Seq<LobbyMemberModel>,
    player: Seq<char>,
)
    requires
        line.no_duplicates(),
        line_is_of_members(line, members),
    ensures
        line_without(line, player).no_duplicates(),
        line_is_of_members(line_without(line, player), members_without(members, player)),
        line_is_of_members(line_without(line, player), members),
        !line_without(line, player).contains(player),
{
    let p = anyone_but(player);
    let out = line_without(line, player);
    lemma_filter(line, p);
    lemma_members_without(members, player);
    assert forall|i: int| 0 <= i < out.len() implies is_member(members, #[trigger] out[i])
        && out[i] != player by {
        assert(out.contains(out[i]));
        assert(line.contains(out[i]) && p(out[i]));
        let j = choose|j: int| 0 <= j < line.len() && line[j] == out[i];
        assert(is_member(members, line[j]));
    }
}

/// Changing what is said of a member changes neither who is a member nor that all
/// are listed once.
pub proof fn lemma_update_members(members: Seq<LobbyMemberModel>, i: int, m: LobbyMemberModel)
    requires
        0 <= i < members.len(),
        m.player_id == members[i].player_id,
    ensures
        members_distinct(members) ==> members_distinct(members.update(i, m)),
        forall|id: Seq<char>| #[trigger]
            is_member(members.update(i, m), id) <==> is_member(members, id),
{
    let out = members.update(i, m);
    assert forall|id: Seq<char>| #[trigger] is_member(out, id) <==> is_member(members, id) by {
        if is_member(out, id) {
            let j = choose|j: int| 0 <= j < out.len() && (#[trigger] out[j]).player_id == id;
            assert(members[j].player_id == id);
        }
        if is_member(members, id) {
            let j = choose|j: int|
                0 <= j < members.len() && (#[trigger] members[j]).player_id == id;
            assert(out[j].player_id == id);
        }
    }
    if members_distinct(members) {
        assert forall|a: int, b: int| 0 <= a < b < out.len() implies (#[trigger] out[a]).player_id
            != (#[trigger] out[b]).player_id by {
            assert(members[a].player_id != members[b].player_id);
        }
    }
}

// What keeps the order

/// The members and the line of a lobby are in order.
pub open spec fn ranks_sound(l: KohLobbyModel) -> bool {
    &&& members_distinct(l.members)
    &&& l.queue.no_duplicates()
    &&& line_is_of_members(l.queue, l.members)
}

/// Calling up the next two brings a sound lobby into order.
pub proof fn lemma_advanced(l: KohLobbyModel, now: Timestamp)
    requires
        lobby_sound(l),
    ensures
        lobby_in_order(advanced(l, now)),
        advanced(l, now).members == l.members,
        advanced(l, now).current == l.current,
{
    lemma_filter(l.queue, |id: Seq<char>| is_member(l.members, id));
    assert(line_of_members(l.queue, l.members) == l.queue);
    if l.current is None && l.pending is None && l.queue.len() >= 2 {
        let out = advanced(l, now);
        assert(out.queue == l.queue.skip(2));
        assert forall|i: int| 0 <= i < out.queue.len() implies is_member(
            l.members,
            #[trigger] out.queue[i],
        ) by {
            assert(out.queue[i] == l.queue[i + 2]);
        }
        assert(l.queue[0] != l.queue[1]);
        assert(is_member(l.members, l.queue[0]) && is_member(l.members, l.queue[1]));
    }
}

/// Bringing a member back to the front keeps members and line in order.
pub proof fn lemma_to_front(l: KohLobbyModel, player: Seq<char>)
    requires
        ranks_sound(l),
    ensures
        ranks_sound(to_front(l, player)),
{
    let out = to_front(l, player);
    if is_member(l.members, player) && !l.queue.contains(player) {
        assert forall|i: int| 0 <= i < out.queue.len() implies is_member(
            l.members,
            #[trigger] out.queue[i],
        ) by {
            if i > 0 {
                assert(out.queue[i] == l.queue[i - 1]);
            }
        }
        assert forall|i: int, j: int|
            0 <= i < out.queue.len() && 0 <= j < out.queue.len() && i != j implies out.queue[i]
            != out.queue[j] by {
            if i == 0 {
                assert(l.queue.contains(l.queue[j - 1]));
            } else if j == 0 {
                assert(l.queue.contains(l.queue[i - 1]));
            }
        }
    }
}

/// Putting a member at the back keeps members and line in order.
proof fn lemma_to_back(l: KohLobbyModel, player: Seq<char>)
    requires
        ranks_sound(l),
    ensures
        ranks_sound(to_back(l, player)),
{
    let out = to_back(l, player);
    if is_member(l.members, player) && !l.queue.contains(player) {
        assert forall|i: int| 0 <= i < out.queue.len() implies is_member(
            l.members,
            #[trigger] out.queue[i],
        ) by {
            if i < l.queue.len() {
                assert(out.queue[i] == l.queue[i]);
            }
        }
        assert forall|i: int, j: int|
            0 <= i < out.queue.len() && 0 <= j < out.queue.len() && i != j implies out.queue[i]
            != out.queue[j] by {
            if i == l.queue.len() {
                assert(l.queue.contains(l.queue[j]));
            } else if j == l.queue.len() {
                assert(l.queue.contains(l.queue[i]));
            }
        }
    }
}

/// Dealing with an expired ready check keeps a lobby in order.
pub proof fn ready_checks_keep_order(l: KohLobbyModel, now: Timestamp)
    requires
        lobby_in_order(l),
    ensures
        lobby_in_order(pending_checked(l, now)),
{
    if ready_check_expired(l, now) {
        let p = l.pending->0;
        let free = KohLobbyModel { pending: None, ..l };
        lemma_to_front(free, p.champion);
        let freed = to_front(free, p.champion);
        lemma_line_without(freed.queue, freed.members, p.challenger);
        lemma_seat(freed.members, p.challenger, 0);
        let members = watching(freed.members, p.challenger);
        if let Some(i) = seat(freed.members, p.challenger) {
            lemma_update_members(
                freed.members,
                i,
                LobbyMemberModel { role: LobbyRole::Spectating, ..freed.members[i] },
            );
        }
        let next = KohLobbyModel {
            queue: line_without(freed.queue, p.challenger),
            members,
            last_activity: now,
            ..freed
        };
        assert forall|i: int| 0 <= i < next.queue.len() implies is_member(
            next.members,
            #[trigger] next.queue[i],
        ) by {
            assert(is_member(freed.members, next.queue[i]));
        }
        lemma_advanced(next, now);
    }
}

/// A new lobby is in order.
pub proof fn new_lobbies_are_in_order(
    player: ClaimsModel,
    req: CreateLobbyRequestModel,
    code: Seq<char>,
    now: Timestamp,
)
    ensures
        lobby_in_order(new_lobby(player, req, code, now)),
{
    let l = new_lobby(player, req, code, now);
    assert(l.members[0].player_id == player.sub);
}

/// Joining keeps a lobby in order.
pub proof fn joining_keeps_order(
    l: KohLobbyModel,
    player: ClaimsModel,
    req: JoinLobbyRequestModel,
    now: Timestamp,
)
    requires
        lobby_in_order(l),
    ensures
        lobby_in_order(joined_lobby(l, player, req, now)),
{
    let role = if req.spectate {
        LobbyRole::Spectating
    } else {
        LobbyRole::Queued
    };
    let members = members_with(l.members, player, req.stun_endpoint, role, now);
    lemma_seat(l.members, player.sub, 0);
    assert(members_distinct(members) && is_member(members, player.sub) && forall|id: Seq<char>|
        is_member(l.members, id) ==> #[trigger] is_member(members, id)) by {
        match seat(l.members, player.sub) {
            Some(i) => {
                lemma_update_members(
                    l.members,
                    i,
                    LobbyMemberModel {
                        stun_endpoint: req.stun_endpoint,
                        role,
                        last_seen: now,
                        ..l.members[i]
                    },
                );
                assert(members[i].player_id == player.sub);
            },
            None => {
                assert(members[l.members.len() as int].player_id == player.sub);
                assert forall|id: Seq<char>| is_member(l.members, id) implies #[trigger] is_member(
                    members,
                    id,
                ) by {
                    let j = choose|j: int|
                        0 <= j < l.members.len() && (#[trigger] l.members[j]).player_id == id;
                    assert(members[j].player_id == id);
                }
                assert forall|i: int, j: int| 0 <= i < j < members.len() implies (
                #[trigger] members[i]).player_id != (#[trigger] members[j]).player_id by {
                    assert(members[i] == l.members[i]);
                    if j < l.members.len() {
                        assert(members[j] == l.members[j]);
                    }
                }
            },
        }
    }
    let line = line_with(l, player.sub, req.spectate);
    if req.spectate {
        lemma_line_without(l.queue, l.members, player.sub);
    } else {
        let back = KohLobbyModel { members, ..l };
        assert(ranks_sound(back)) by {
            assert forall|i: int| 0 <= i < l.queue.len() implies is_member(
                members,
                #[trigger] l.queue[i],
            ) by {
                assert(is_member(l.members, l.queue[i]));
            }
        }
        lemma_to_back(back, player.sub);
    }
    let next = KohLobbyModel { members, queue: line, last_activity: now, ..l };
    assert forall|i: int| 0 <= i < next.queue.len() implies is_member(
        members,
        #[trigger] next.queue[i],
    ) by {
        if req.spectate {
            assert(is_member(l.members, next.queue[i]));
        }
    }
    lemma_advanced(next, now);
}

/// Being seen keeps a lobby in order.
pub proof fn being_seen_keeps_order(l: KohLobbyModel, player: Seq<char>, now: Timestamp)
    requires
        lobby_in_order(l),
    ensures
        lobby_in_order(seen(l, player, now)),
{
    lemma_seat(l.members, player, 0);
    if let Some(i) = seat(l.members, player) {
        lemma_update_members(
            l.members,
            i,
            LobbyMemberModel { last_seen: now, ..l.members[i] },
        );
        let out = seen(l, player, now);
        assert forall|j: int| 0 <= j < out.queue.len() implies is_member(
            out.members,
            #[trigger] out.queue[j],
        ) by {
            assert(is_member(l.members, l.queue[j]));
        }
    }
}

/// Starting a match keeps a lobby in order.
pub proof fn starting_keeps_order(
    s: StateModel,
    l: KohLobbyModel,
    room_id: Seq<char>,
    host_session: Seq<char>,
    join_session: Seq<char>,
    now: Timestamp,
)
    requires
        lobby_in_order(l),
    ensures
        lobby_in_order(promoted(s, l, room_id, host_session, join_session, now).1),
        l.pending is Some ==> ({
            let started = promoted(s, l, room_id, host_session, join_session, now).1;
            started.current matches Some(c) && c.host == l.pending->0.champion && c.join
                == l.pending->0.challenger
        }),
{
    if let Some(p) = l.pending {
        lemma_seat(l.members, p.champion, 0);
        lemma_seat(l.members, p.challenger, 0);
    }
}

/// Saying that one is ready keeps a lobby in order.
pub proof fn readying_keeps_order(
    s: StateModel,
    l: KohLobbyModel,
    player: Seq<char>,
    room_id: Seq<char>,
    host_session: Seq<char>,
    join_session: Seq<char>,
    now: Timestamp,
)
    requires
        lobby_in_order(l),
    ensures
        lobby_in_order(readied(s, l, player, room_id, host_session, join_session, now).1),
{
    being_seen_keeps_order(l, player, now);
    ready_checks_keep_order(seen(l, player, now), now);
    let checked = pending_checked(seen(l, player, now), now);
    starting_keeps_order(s, checked, room_id, host_session, join_session, now);
    if checked.pending is Some && checked.pending->0.challenger == player {
        lemma_advanced(promoted(s, checked, room_id, host_session, join_session, now).1, now);
    } else {
        lemma_advanced(checked, now);
    }
}

/// Leaving keeps a lobby in order, and whoever left is no member.
pub proof fn leaving_keeps_order(l: KohLobbyModel, player: Seq<char>, now: Timestamp)
    requires
        lobby_sound(l),
    ensures
        lobby_in_order(left(l, player, now)),
        !is_member(left(l, player, now).members, player),
        !plays(l, player) ==> left(l, player, now).current == l.current,
{
    lemma_members_without(l.members, player);
    lemma_line_without(l.queue, l.members, player);
    let gone = KohLobbyModel {
        queue: line_without(l.queue, player),
        members: members_without(l.members, player),
        ..l
    };
    assert(ranks_sound(gone));
    let unmatched = if plays(gone, player) {
        let c = gone.current->0;
        let other = if c.host == player {
            c.join
        } else {
            c.host
        };
        lemma_to_front(KohLobbyModel { current: None, ..gone }, other);
        to_front(KohLobbyModel { current: None, ..gone }, other)
    } else {
        gone
    };
    let unasked = if asked(unmatched, player) {
        let p = unmatched.pending->0;
        let other = if p.champion == player {
            p.challenger
        } else {
            p.champion
        };
        lemma_to_front(KohLobbyModel { pending: None, ..unmatched }, other);
        to_front(KohLobbyModel { pending: None, ..unmatched }, other)
    } else {
        unmatched
    };
    let next = KohLobbyModel { last_activity: now, ..unasked };
    assert(lobby_sound(next));
    lemma_advanced(next, now);
}

/// A result keeps a lobby in order.
pub proof fn deciding_keeps_order(
    l: KohLobbyModel,
    winner: Seq<char>,
    loser: Seq<char>,
    now: Timestamp,
)
    requires
        lobby_in_order(l),
        l.current is Some,
    ensures
        lobby_in_order(decided(l, winner, loser, now)),
{
    let free = KohLobbyModel { current: None, ..l };
    lemma_to_front(free, winner);
    lemma_to_back(to_front(free, winner), loser);
    let settled = to_back(to_front(free, winner), loser);
    lemma_advanced(KohLobbyModel { last_activity: now, ..settled }, now);
}

/// Several players' leaving keeps a lobby sound.
pub proof fn lemma_all_left(l: KohLobbyModel, players: Seq<Seq<char>>, now: Timestamp)
    requires
        lobby_sound(l),
    ensures
        lobby_sound(all_left(l, players, now)),
        players.len() > 0 || in_rotation(l) ==> in_rotation(all_left(l, players, now)),
    decreases players.len(),
{
    if players.len() > 0 {
        lemma_all_left(l, players.drop_last(), now);
        leaving_keeps_order(all_left(l, players.drop_last(), now), players.last(), now);
    }
}

/// Sweeping keeps a lobby in order.
pub proof fn sweeping_keeps_order(l: KohLobbyModel, now: Timestamp)
    requires
        lobby_in_order(l),
    ensures
        lobby_in_order(lobby_swept(l, now)),
{
    let free = unstuck(l, now);
    let gone = all_left(free, idle_players(free, now), now);
    lemma_all_left(free, idle_players(free, now), now);
    lemma_checked_sound(gone, now);
    lemma_advanced(pending_checked(gone, now), now);
}

/// Dealing with a ready check keeps a lobby sound.
proof fn lemma_checked_sound(l: KohLobbyModel, now: Timestamp)
    requires
        lobby_sound(l),
    ensures
        lobby_sound(pending_checked(l, now)),
{
    if l.pending is Some {
        ready_checks_keep_order(l, now);
    }
}

// The rotation

/// Calling up from a line of members only.
proof fn lemma_called_up(l: KohLobbyModel, now: Timestamp)
    requires
        line_is_of_members(l.queue, l.members),
        l.current is None,
        l.pending is None,
        l.queue.len() >= 2,
    ensures
        ({
            let out = advanced(l, now);
            &&& out.pending matches Some(p) && p.champion == l.queue[0] && p.challenger
                == l.queue[1] && p.deadline == secs_later(now, 10)
            &&& out.queue == l.queue.skip(2)
        }),
{
    lemma_filter(l.queue, |id: Seq<char>| is_member(l.members, id));
    assert(line_of_members(l.queue, l.members) == l.queue);
}

/// The winner stays on the hill: after a match between two members who do not
/// stand in line, the winner is champion of the next ready check, the first in
/// line is the challenger, and the loser is last in line.
pub proof fn the_winner_stays(
    l: KohLobbyModel,
    winner: Seq<char>,
    loser: Seq<char>,
    now: Timestamp,
)
    requires
        lobby_in_order(l),
        l.current is Some,
        two_members(l.members, winner, loser),
        !l.queue.contains(winner),
        !l.queue.contains(loser),
    ensures
        ({
            let out = decided(l, winner, loser, now);
            let line = l.queue.push(loser);
            &&& out.current is None
            &&& out.pending matches Some(p) && p.champion == winner && p.challenger == line[0]
            &&& out.queue == line.skip(1)
        }),
{
    let free = KohLobbyModel { current: None, ..l };
    lemma_to_front(free, winner);
    let front = to_front(free, winner);
    assert(front.queue == seq![winner] + l.queue);
    assert(!front.queue.contains(loser)) by {
        if front.queue.contains(loser) {
            let i = choose|i: int| 0 <= i < front.queue.len() && front.queue[i] == loser;
            assert(i > 0);
            assert(l.queue[i - 1] == loser);
        }
    }
    lemma_to_back(front, loser);
    let settled = to_back(front, loser);
    let next = KohLobbyModel { last_activity: now, ..settled };
    assert(next.queue == (seq![winner] + l.queue).push(loser));
    lemma_called_up(next, now);
    assert(next.queue.skip(2) == l.queue.push(loser).skip(1));
}

/// Only the challenger's word starts a match: whoever else says that they are
/// ready changes neither the sessions nor who plays.
pub proof fn only_the_challenger_starts_a_match(
    s: StateModel,
    l: KohLobbyModel,
    player: Seq<char>,
    room_id: Seq<char>,
    host_session: Seq<char>,
    join_session: Seq<char>,
    now: Timestamp,
)
    requires
        lobby_in_order(l),
        ({
            let asked = pending_checked(seen(l, player, now), now).pending;
            asked is None || asked->0.challenger != player
        }),
    ensures
        readied(s, l, player, room_id, host_session, join_session, now).0 == s,
        readied(s, l, player, room_id, host_session, join_session, now).1.current == l.current,
{
}

/// A challenger who confirms in time plays the champion, who hosts.
pub proof fn a_challenger_who_confirms_plays(
    s: StateModel,
    l: KohLobbyModel,
    room_id: Seq<char>,
    host_session: Seq<char>,
    join_session: Seq<char>,
    now: Timestamp,
)
    requires
        lobby_in_order(l),
        l.pending is Some,
        now.nanos <= l.pending->0.deadline.nanos,
    ensures
        ({
            let (s2, l2) = readied(
                s,
                l,
                l.pending->0.challenger,
                room_id,
                host_session,
                join_session,
                now,
            );
            &&& l2.pending is None
            &&& l2.current == Some(
                ActiveMatchModel {
                    host: l.pending->0.champion,
                    join: l.pending->0.challenger,
                    room_id,
                    host_session,
                    join_session,
                    started_at: now,
                },
            )
            &&& s2.queue.contains_key(host_session)
            &&& s2.queue.contains_key(join_session)
        }),
{
    let player = l.pending->0.challenger;
    being_seen_keeps_order(l, player, now);
    let heard = seen(l, player, now);
    lemma_seat(heard.members, heard.pending->0.champion, 0);
    lemma_seat(heard.members, heard.pending->0.challenger, 0);
}

/// A challenger who does not confirm in time is left to watch: they stay a
/// member, but stand neither in line nor in the next ready check.
pub proof fn a_late_challenger_watches(l: KohLobbyModel, now: Timestamp)
    requires
        lobby_in_order(l),
        ready_check_expired(l, now),
    ensures
        ({
            let out = pending_checked(l, now);
            let late = l.pending->0.challenger;
            &&& is_member(out.members, late)
            &&& forall|i: int|
                0 <= i < out.members.len() && (#[trigger] out.members[i]).player_id == late
                    ==> out.members[i].role == LobbyRole::Spectating
            &&& !out.queue.contains(late)
            &&& !asked(out, late)
        }),
{
    let p = l.pending->0;
    let free = KohLobbyModel { pending: None, ..l };
    lemma_to_front(free, p.champion);
    let freed = to_front(free, p.champion);
    lemma_line_without(freed.queue, freed.members, p.challenger);
    lemma_seat(freed.members, p.challenger, 0);
    let members = watching(freed.members, p.challenger);
    let i = seat(freed.members, p.challenger)->0;
    lemma_update_members(
        freed.members,
        i,
        LobbyMemberModel { role: LobbyRole::Spectating, ..freed.members[i] },
    );
    let next = KohLobbyModel {
        queue: line_without(freed.queue, p.challenger),
        members,
        last_activity: now,
        ..freed
    };
    assert forall|j: int| 0 <= j < next.queue.len() implies is_member(
        next.members,
        #[trigger] next.queue[j],
    ) by {
        assert(is_member(freed.members, next.queue[j]));
    }
    lemma_advanced(next, now);
    lemma_filter(next.queue, |id: Seq<char>| is_member(next.members, id));
    assert(line_of_members(next.queue, next.members) == next.queue);
    let out = pending_checked(l, now);
    assert(out == advanced(next, now));
    assert forall|j: int|
        0 <= j < out.members.len() && (#[trigger] out.members[j]).player_id
            == p.challenger implies out.members[j].role == LobbyRole::Spectating by {
        if j != i {
            assert(freed.members[j].player_id == freed.members[i].player_id);
        }
    }
    if next.queue.len() >= 2 {
        assert(next.queue.contains(next.queue[0]) && next.queue.contains(next.queue[1]));
        assert forall|j: int| 0 <= j < out.queue.len() implies out.queue[j] != p.challenger by {
            assert(out.queue[j] == next.queue[j + 2]);
            assert(next.queue.contains(next.queue[j + 2]));
        }
    }
}

/// Who plays does not change while others leave.
pub proof fn lemma_all_left_current(l: KohLobbyModel, players: Seq<Seq<char>>, now: Timestamp)
    requires
        lobby_sound(l),
        forall|i: int| 0 <= i < players.len() ==> !plays(l, #[trigger] players[i]),
    ensures
        all_left(l, players, now).current == l.current,
    decreases players.len(),
{
    if players.len() > 0 {
        let rest = players.drop_last();
        assert forall|i: int| 0 <= i < rest.len() implies !plays(l, #[trigger] rest[i]) by {
            assert(rest[i] == players[i]);
        }
        lemma_all_left_current(l, rest, now);
        lemma_all_left(l, rest, now);
        assert(!plays(l, players[players.len() - 1]));
        leaving_keeps_order(all_left(l, rest, now), players.last(), now);
    }
}

/// Sweeping does not touch a match that is not stuck: the two who play stay
/// members and go on playing, however long they have been silent.
pub proof fn sweeping_spares_those_who_play(l: KohLobbyModel, now: Timestamp)
    requires
        lobby_in_order(l),
        l.current is Some,
        unstuck(l, now) == l,
    ensures
        lobby_swept(l, now).current == l.current,
        is_member(lobby_swept(l, now).members, l.current->0.host),
        is_member(lobby_swept(l, now).members, l.current->0.join),
{
    let players = idle_players(l, now);
    let p = |m: LobbyMemberModel| idle(l, m, now);
    lemma_filter(l.members, p);
    assert forall|i: int| 0 <= i < players.len() implies !plays(l, #[trigger] players[i]) by {
        let kept = l.members.filter(p);
        assert(players[i] == kept[i].player_id);
        assert(kept.contains(kept[i]));
    }
    lemma_all_left_current(l, players, now);
    lemma_all_left(l, players, now);
    let gone = all_left(l, players, now);
    lemma_checked_sound(gone, now);
    lemma_advanced(pending_checked(gone, now), now);
}

/// Whoever leaves a match loses it: the opponent, who does not stand in line, is
/// first in line again or champion of the next ready check.
pub proof fn leaving_a_match_loses_it(l: KohLobbyModel, player: Seq<char>, now: Timestamp)
    requires
        lobby_in_order(l),
        plays(l, player),
        ({
            let c = l.current->0;
            !l.queue.contains(
                if c.host == player {
                    c.join
                } else {
                    c.host
                },
            )
        }),
    ensures
        ({
            let c = l.current->0;
            let opponent = if c.host == player {
                c.join
            } else {
                c.host
            };
            let out = left(l, player, now);
            &&& out.current is None
            &&& out.pending is None ==> out.queue == seq![opponent]
            &&& out.pending matches Some(p) ==> p.champion == opponent
        }),
{
    let c = l.current->0;
    let opponent = if c.host == player {
        c.join
    } else {
        c.host
    };
    lemma_members_without(l.members, player);
    lemma_line_without(l.queue, l.members, player);
    let gone = KohLobbyModel {
        queue: line_without(l.queue, player),
        members: members_without(l.members, player),
        ..l
    };
    assert(!gone.queue.contains(opponent)) by {
        lemma_filter(l.queue, anyone_but(player));
    }
    let free = KohLobbyModel { current: None, ..gone };
    lemma_to_front(free, opponent);
    let front = to_front(free, opponent);
    assert(front.queue == seq![opponent] + gone.queue);
    let next = KohLobbyModel { last_activity: now, ..front };
    lemma_filter(next.queue, |id: Seq<char>| is_member(next.members, id));
    assert(line_of_members(next.queue, next.members) == next.queue);
    assert(next.queue[0] == opponent);
    if next.queue.len() < 2 {
        assert(next.queue == seq![opponent]);
    }
}

} // verus!
