//! The rotation of a king-of-the-hill lobby: who plays next, who stays on the
//! hill, and who is dropped.

use std::collections::VecDeque;
use vstd::prelude::*;
use crate::models::{
    KohLobby, KohLobbyModel, LobbyMember, LobbyMemberModel, LobbyRole, PendingMatch,
    PendingMatchModel,
};
use crate::text::same_text;
use crate::time::{secs_later, Timestamp};

verus! {

/// How long a challenger has to confirm, in seconds.
pub const READY_TIMEOUT_SECS: u32 = 10;

// Members and the line

/// The first place at or after `from` where a player stands in a list of
/// members.
pub open spec fn seat_from(members: Seq<LobbyMemberModel>, player: Seq<char>, from: int) -> Option<
    int,
>
    decreases members.len() - from,
{
    if from < 0 || from >= members.len() {
        None
    } else if members[from].player_id == player {
        Some(from)
    } else {
        seat_from(members, player, from + 1)
    }
}

/// Where a player stands in a list of members.
pub open spec fn seat(members: Seq<LobbyMemberModel>, player: Seq<char>) -> Option<int> {
    seat_from(members, player, 0)
}

/// Whether a player is a member.
pub open spec fn is_member(members: Seq<LobbyMemberModel>, player: Seq<char>) -> bool {
    exists|i: int| 0 <= i < members.len() && (#[trigger] members[i]).player_id == player
}

/// Anyone but this player.
pub open spec fn anyone_but(player: Seq<char>) -> spec_fn(Seq<char>) -> bool {
    |id: Seq<char>| id != player
}

/// The line without a player.
pub open spec fn line_without(line: Seq<Seq<char>>, player: Seq<char>) -> Seq<Seq<char>> {
    line.filter(anyone_but(player))
}

/// The members without a player.
pub open spec fn members_without(
    members: Seq<LobbyMemberModel>,
    player: Seq<char>,
) -> Seq<LobbyMemberModel> {
    members.filter(|m: LobbyMemberModel| m.player_id != player)
}

/// The line of those who are members.
pub open spec fn line_of_members(
    line: Seq<Seq<char>>,
    members: Seq<LobbyMemberModel>,
) -> Seq<Seq<char>> {
    line.filter(|id: Seq<char>| is_member(members, id))
}

/// A seat is a place where the player stands, and the first one; without a seat,
/// the player is no member.
pub proof fn lemma_seat(members: Seq<LobbyMemberModel>, player: Seq<char>, from: int)
    requires
        0 <= from <= members.len(),
    ensures
        match seat_from(members, player, from) {
            Some(i) => {
                &&& from <= i < members.len()
                &&& members[i].player_id == player
                &&& forall|j: int| from <= j < i ==> (#[trigger] members[j]).player_id != player
            },
            None => forall|j: int|
                from <= j < members.len() ==> (#[trigger] members[j]).player_id != player,
        },
    decreases members.len() - from,
{
    if from < members.len() && members[from].player_id != player {
        lemma_seat(members, player, from + 1);
    }
}

/// Where a player stands in a list of members.
pub fn find_seat(members: &Vec<LobbyMember>, player: &str) -> (res: Option<usize>)
    ensures
        match res {
            Some(i) => seat(members.deep_view(), player@) == Some(i as int) && i < members.len()
                && members@[i as int]@.player_id == player@ && is_member(
                members.deep_view(),
                player@,
            ),
            None => seat(members.deep_view(), player@) is None && !is_member(
                members.deep_view(),
                player@,
            ),
        },
{
    let ghost all = members.deep_view();
    let mut i: usize = 0;
    while i < members.len()
        invariant
            i <= members.len(),
            all == members.deep_view(),
            seat(all, player@) == seat_from(all, player@, i as int),
            forall|j: int| 0 <= j < i ==> (#[trigger] all[j]).player_id != player@,
        decreases members.len() - i,
    {
        if same_text(members[i].player_id.as_str(), player) {
            assert(all[i as int].player_id == player@);
            return Some(i);
        }
        i += 1;
    }
    None
}

/// Whether a player stands in the line.
pub fn in_line(line: &VecDeque<String>, player: &str) -> (res: bool)
    ensures
        res == line.deep_view().contains(player@),
{
    let ghost all = line.deep_view();
    let mut i: usize = 0;
    while i < line.len()
        invariant
            i <= line@.len(),
            all == line.deep_view(),
            forall|j: int| 0 <= j < i ==> #[trigger] all[j] != player@,
        decreases line@.len() - i,
    {
        if same_text(line[i].as_str(), player) {
            assert(all[i as int] == player@);
            return true;
        }
        i += 1;
    }
    false
}

/// The line without a player.
pub(crate) fn leave_line(line: VecDeque<String>, player: &str) -> (rest: VecDeque<String>)
    ensures
        rest.deep_view() == line_without(line.deep_view(), player@),
{
    let mut line = line;
    let ghost all = line.deep_view();
    let ghost p = anyone_but(player@);
    let mut rest: VecDeque<String> = VecDeque::new();
    let ghost mut done: int = 0;
    assert(all.skip(0) == all);
    assert(rest.deep_view() == all.take(0).filter(p));
    loop
        invariant
            0 <= done <= all.len(),
            line.deep_view() == all.skip(done),
            p == anyone_but(player@),
            rest.deep_view() == all.take(done).filter(p),
        ensures
            rest.deep_view() == all.filter(p),
        decreases line@.len(),
    {
        let ghost before = line.deep_view();
        let ghost sofar = rest.deep_view();
        assert(before.len() == line@.len());
        let next = line.pop_front();
        match next {
            Some(id) => {
                proof {
                    assert(before.len() > 0);
                    assert(id@ == before[0]);
                    assert(before[0] == all[done]);
                    assert(line.deep_view() == all.skip(done + 1)) by {
                        assert(line.deep_view() == before.drop_first());
                    }
                    assert(all.take(done + 1).drop_last() == all.take(done));
                    assert(all.take(done + 1).last() == all[done]);
                    reveal(Seq::filter);
                }
                if !same_text(id.as_str(), player) {
                    rest.push_back(id);
                    proof {
                        assert(rest.deep_view() == sofar.push(all[done]));
                    }
                }
                proof {
                    done = done + 1;
                }
            },
            None => {
                proof {
                    assert(before.len() == 0);
                    assert(all.take(done) == all);
                }
                break;
            },
        }
    }
    rest
}

/// The line of those who are members.
fn line_up(line: VecDeque<String>, members: &Vec<LobbyMember>) -> (rest: VecDeque<String>)
    ensures
        rest.deep_view() == line_of_members(line.deep_view(), members.deep_view()),
{
    let mut line = line;
    let ghost all = line.deep_view();
    let ghost p = |id: Seq<char>| is_member(members.deep_view(), id);
    let mut rest: VecDeque<String> = VecDeque::new();
    let ghost mut done: int = 0;
    assert(all.skip(0) == all);
    assert(rest.deep_view() == all.take(0).filter(p));
    loop
        invariant
            0 <= done <= all.len(),
            line.deep_view() == all.skip(done),
            p == (|id: Seq<char>| is_member(members.deep_view(), id)),
            rest.deep_view() == all.take(done).filter(p),
        ensures
            rest.deep_view() == all.filter(p),
        decreases line@.len(),
    {
        let ghost before = line.deep_view();
        let ghost sofar = rest.deep_view();
        assert(before.len() == line@.len());
        let next = line.pop_front();
        match next {
            Some(id) => {
                proof {
                    assert(before.len() > 0);
                    assert(id@ == before[0]);
                    assert(before[0] == all[done]);
                    assert(line.deep_view() == all.skip(done + 1)) by {
                        assert(line.deep_view() == before.drop_first());
                    }
                    assert(all.take(done + 1).drop_last() == all.take(done));
                    assert(all.take(done + 1).last() == all[done]);
                    reveal(Seq::filter);
                }
                if find_seat(members, id.as_str()).is_some() {
                    rest.push_back(id);
                    proof {
                        assert(rest.deep_view() == sofar.push(all[done]));
                    }
                }
                proof {
                    done = done + 1;
                }
            },
            None => {
                proof {
                    assert(before.len() == 0);
                    assert(all.take(done) == all);
                }
                break;
            },
        }
    }
    rest
}

/// The members without a player.
pub(crate) fn leave_members(members: &Vec<LobbyMember>, player: &str) -> (rest: Vec<LobbyMember>)
    ensures
        rest.deep_view() == members_without(members.deep_view(), player@),
{
    let ghost all = members.deep_view();
    let ghost p = |m: LobbyMemberModel| m.player_id != player@;
    let mut rest: Vec<LobbyMember> = Vec::new();
    let mut i: usize = 0;
    assert(rest.deep_view() == all.take(0).filter(p));
    while i < members.len()
        invariant
            i <= members.len(),
            all == members.deep_view(),
            p == (|m: LobbyMemberModel| m.player_id != player@),
            rest.deep_view() == all.take(i as int).filter(p),
        decreases members.len() - i,
    {
        let ghost sofar = rest.deep_view();
        proof {
            assert(all.take(i + 1).drop_last() == all.take(i as int));
            assert(all.take(i + 1).last() == all[i as int]);
            reveal(Seq::filter);
        }
        if !same_text(members[i].player_id.as_str(), player) {
            rest.push(members[i].clone());
            proof {
                assert(rest.deep_view() == sofar.push(all[i as int]));
            }
        }
        i += 1;
    }
    assert(all.take(all.len() as int) == all);
    rest
}

// The rotation

/// The lobby with a member back at the front of the line, unless they stand in
/// it already.
pub open spec fn to_front(l: KohLobbyModel, player: Seq<char>) -> KohLobbyModel {
    if is_member(l.members, player) && !l.queue.contains(player) {
        KohLobbyModel { queue: seq![player] + l.queue, ..l }
    } else {
        l
    }
}

/// The lobby with a member at the back of the line, unless they stand in it
/// already.
pub open spec fn to_back(l: KohLobbyModel, player: Seq<char>) -> KohLobbyModel {
    if is_member(l.members, player) && !l.queue.contains(player) {
        KohLobbyModel { queue: l.queue.push(player), ..l }
    } else {
        l
    }
}

/// The lobby once the next two in line, if nobody plays or is asked, are called
/// up: the first is the champion, the second the challenger, who must confirm.
pub open spec fn advanced(l: KohLobbyModel, now: Timestamp) -> KohLobbyModel {
    if l.current is Some || l.pending is Some {
        l
    } else {
        let line = line_of_members(l.queue, l.members);
        if line.len() < 2 {
            KohLobbyModel { queue: line, ..l }
        } else {
            KohLobbyModel {
                queue: line.skip(2),
                pending: Some(
                    PendingMatchModel {
                        champion: line[0],
                        challenger: line[1],
                        deadline: secs_later(now, READY_TIMEOUT_SECS as int),
                    },
                ),
                last_activity: now,
                ..l
            }
        }
    }
}

/// The members with one of them watching.
pub open spec fn watching(members: Seq<LobbyMemberModel>, player: Seq<char>) -> Seq<
    LobbyMemberModel,
> {
    match seat(members, player) {
        Some(i) => members.update(
            i,
            LobbyMemberModel { role: LobbyRole::Spectating, ..members[i] },
        ),
        None => members,
    }
}

/// Whether the challenger has failed to confirm in time.
pub open spec fn ready_check_expired(l: KohLobbyModel, now: Timestamp) -> bool {
    l.pending is Some && now.nanos > l.pending->0.deadline.nanos
}

/// The lobby once an expired ready check is dealt with: the challenger is left to
/// watch, the champion returns to the front, and the next challenger is called.
pub open spec fn pending_checked(l: KohLobbyModel, now: Timestamp) -> KohLobbyModel {
    if ready_check_expired(l, now) {
        let p = l.pending->0;
        let freed = to_front(KohLobbyModel { pending: None, ..l }, p.champion);
        advanced(
            KohLobbyModel {
                queue: line_without(freed.queue, p.challenger),
                members: watching(freed.members, p.challenger),
                last_activity: now,
                ..freed
            },
            now,
        )
    } else {
        l
    }
}

/// Brings a member back to the front of the line.
pub(crate) fn put_front(lobby: &mut KohLobby, player: &str)
    ensures
        final(lobby)@ == to_front(old(lobby)@, player@),
{
    if find_seat(&lobby.members, player).is_some() && !in_line(&lobby.queue, player) {
        let ghost before = lobby.queue.deep_view();
        lobby.queue.push_front(player.to_string());
        proof {
            assert(lobby.queue.deep_view() == seq![player@] + before);
        }
    }
}

/// Puts a member at the back of the line.
pub(crate) fn put_back(lobby: &mut KohLobby, player: &str)
    ensures
        final(lobby)@ == to_back(old(lobby)@, player@),
{
    if find_seat(&lobby.members, player).is_some() && !in_line(&lobby.queue, player) {
        let ghost before = lobby.queue.deep_view();
        lobby.queue.push_back(player.to_string());
        proof {
            assert(lobby.queue.deep_view() == before.push(player@));
        }
    }
}

/// Calls up the next two in line, if nobody plays or is asked.
pub fn advance_lobby(lobby: &mut KohLobby, now: Timestamp)
    ensures
        final(lobby)@ == advanced(old(lobby)@, now),
{
    if lobby.current.is_some() || lobby.pending.is_some() {
        return;
    }
    let mut line: VecDeque<String> = VecDeque::new();
    std::mem::swap(&mut line, &mut lobby.queue);
    let mut line = line_up(line, &lobby.members);
    let ghost all = line.deep_view();
    if line.len() >= 2 {
        let first = line.pop_front();
        assert(line.deep_view() == all.skip(1));
        let second = line.pop_front();
        assert(line.deep_view() == all.skip(2));
        if let (Some(champion), Some(challenger)) = (first, second) {
            assert(champion@ == all[0] && challenger@ == all[1]);
            let deadline = now.later(READY_TIMEOUT_SECS);
            lobby.pending = Some(PendingMatch { champion, challenger, deadline });
            lobby.last_activity = now;
        }
    }
    lobby.queue = line;
}

/// Leaves a member to watch.
fn set_watching(members: &mut Vec<LobbyMember>, player: &str)
    ensures
        final(members).deep_view() == watching(old(members).deep_view(), player@),
{
    if let Some(i) = find_seat(members, player) {
        let mut m = members[i].clone();
        m.role = LobbyRole::Spectating;
        let ghost before = members.deep_view();
        let ghost now_watching = m@;
        members.set(i, m);
        proof {
            assert(members.deep_view() == before.update(i as int, now_watching));
        }
    }
}

/// Deals with a ready check that has expired.
pub fn check_pending(lobby: &mut KohLobby, now: Timestamp)
    ensures
        final(lobby)@ == pending_checked(old(lobby)@, now),
{
    let expired = match &lobby.pending {
        Some(p) => now.nanos > p.deadline.nanos,
        None => false,
    };
    if !expired {
        return;
    }
    if let Some(p) = lobby.pending.take() {
        put_front(lobby, p.champion.as_str());
        let mut line: VecDeque<String> = VecDeque::new();
        std::mem::swap(&mut line, &mut lobby.queue);
        lobby.queue = leave_line(line, p.challenger.as_str());
        set_watching(&mut lobby.members, p.challenger.as_str());
        lobby.last_activity = now;
        advance_lobby(lobby, now);
    }
}

} // verus!
