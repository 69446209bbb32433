//! King-of-the-hill lobbies: joining, watching, confirming and leaving.

use dashmap::DashMap;
use std::collections::VecDeque;
use vstd::prelude::*;
use crate::koh::{
    advance_lobby, advanced, find_seat, is_member, leave_line, leave_members, line_without,
    members_without, put_front, seat, to_front,
};
use crate::models::{
    ActiveMatch, ActiveMatchModel, CurrentMatchView, CurrentMatchViewModel, KohLobby, KohLobbyModel,
    LobbyMember, LobbyMemberModel, LobbyMemberView, LobbyMemberViewModel, LobbyStateResponse,
    LobbyStateResponseModel, MatchInfoModel, PlayerRole, QueueEntry, QueueEntryModel,
    ReadyCheckView, ReadyCheckViewModel,
};
use crate::sessions::{meet, meeting, open_session, opened};
use crate::state::{AppState, StateModel};
use crate::table::{self, queue_rows};
use crate::text::same_text;
use crate::time::{elapsed_secs, Timestamp};

verus! {

// Leaving

/// Whether a player is in the match that a lobby is playing.
pub open spec fn plays(l: KohLobbyModel, player: Seq<char>) -> bool {
    l.current is Some && (l.current->0.host == player || l.current->0.join == player)
}

/// Whether a player is in a lobby's ready check.
pub open spec fn asked(l: KohLobbyModel, player: Seq<char>) -> bool {
    l.pending is Some && (l.pending->0.champion == player || l.pending->0.challenger == player)
}

/// The sessions of the match that a lobby is playing.
pub open spec fn match_sessions(l: KohLobbyModel) -> Set<Seq<char>> {
    match l.current {
        Some(c) => set![c.host_session, c.join_session],
        None => Set::empty(),
    }
}

/// The sessions that end when a player leaves: those of the match, if the player
/// is in it.
pub open spec fn sessions_ended(l: KohLobbyModel, player: Seq<char>) -> Set<Seq<char>> {
    if plays(l, player) {
        match_sessions(l)
    } else {
        Set::empty()
    }
}

/// A lobby that a player has left. An opponent in the match or in the ready check
/// wins by default and returns to the front of the line.
pub open spec fn left(l: KohLobbyModel, player: Seq<char>, now: Timestamp) -> KohLobbyModel {
    let gone = KohLobbyModel {
        queue: line_without(l.queue, player),
        members: members_without(l.members, player),
        ..l
    };
    let unmatched = if plays(gone, player) {
        let c = gone.current->0;
        to_front(
            KohLobbyModel { current: None, ..gone },
            if c.host == player {
                c.join
            } else {
                c.host
            },
        )
    } else {
        gone
    };
    let unasked = if asked(unmatched, player) {
        let p = unmatched.pending->0;
        to_front(
            KohLobbyModel { pending: None, ..unmatched },
            if p.champion == player {
                p.challenger
            } else {
                p.champion
            },
        )
    } else {
        unmatched
    };
    advanced(KohLobbyModel { last_activity: now, ..unasked }, now)
}

/// Ends the two sessions of a match.
pub(crate) fn end_sessions(queue: &mut DashMap<String, QueueEntry>, c: &ActiveMatch)
    ensures
        queue_rows(*final(queue)) == queue_rows(*old(queue)).remove_keys(
            set![c@.host_session, c@.join_session],
        ),
{
    let _ = table::remove(queue, c.host_session.as_str());
    let _ = table::remove(queue, c.join_session.as_str());
    proof {
        assert(queue_rows(*queue) =~= queue_rows(*old(queue)).remove_keys(
            set![c@.host_session, c@.join_session],
        ));
    }
}

/// Takes a player out of a lobby. The caller destroys the lobby if nobody is
/// left.
pub fn remove_lobby_member(
    queue: &mut DashMap<String, QueueEntry>,
    lobby: &mut KohLobby,
    player_id: &str,
    now: Timestamp,
)
    ensures
        final(lobby)@ == left(old(lobby)@, player_id@, now),
        queue_rows(*final(queue)) == queue_rows(*old(queue)).remove_keys(
            sessions_ended(old(lobby)@, player_id@),
        ),
{
    let mut line: VecDeque<String> = VecDeque::new();
    std::mem::swap(&mut line, &mut lobby.queue);
    lobby.queue = leave_line(line, player_id);
    lobby.members = leave_members(&lobby.members, player_id);
    let ghost gone = lobby@;
    let playing = match &lobby.current {
        Some(c) => same_text(c.host.as_str(), player_id) || same_text(c.join.as_str(), player_id),
        None => false,
    };
    assert(playing == plays(gone, player_id@));
    if playing {
        if let Some(c) = lobby.current.take() {
            end_sessions(queue, &c);
            let winner = if same_text(c.host.as_str(), player_id) {
                c.join
            } else {
                c.host
            };
            put_front(lobby, winner.as_str());
        }
    } else {
        proof {
            assert(queue_rows(*queue).remove_keys(Set::empty()) =~= queue_rows(*queue));
        }
    }
    let ghost unmatched = lobby@;
    let is_asked = match &lobby.pending {
        Some(p) => same_text(p.champion.as_str(), player_id) || same_text(
            p.challenger.as_str(),
            player_id,
        ),
        None => false,
    };
    assert(is_asked == asked(unmatched, player_id@));
    if is_asked {
        if let Some(p) = lobby.pending.take() {
            let other = if same_text(p.champion.as_str(), player_id) {
                p.challenger
            } else {
                p.champion
            };
            put_front(lobby, other.as_str());
        }
    }
    lobby.last_activity = now;
    advance_lobby(lobby, now);
}

// Starting a match

/// The lobby with a member at the front of the line.
pub open spec fn pushed_front(l: KohLobbyModel, player: Seq<char>) -> KohLobbyModel {
    if is_member(l.members, player) {
        KohLobbyModel { queue: seq![player] + l.queue, ..l }
    } else {
        l
    }
}

/// A lobby member's session in a match against `peer`.
pub open spec fn member_session(
    s: StateModel,
    l: KohLobbyModel,
    session_id: Seq<char>,
    me: LobbyMemberModel,
    role: PlayerRole,
    peer: LobbyMemberModel,
    room_id: Seq<char>,
    now: Timestamp,
) -> QueueEntryModel {
    opened(
        session_id,
        me.player_id,
        me.username,
        me.stun_endpoint,
        l.app_version,
        l.rom_hash,
        now,
        Some(meeting(s.config, role, peer.stun_endpoint, peer.username, room_id, now)),
    )
}

/// The state and the lobby once a confirmed ready check has become a match. If
/// one of the two is gone, the other returns to the line instead.
pub open spec fn promoted(
    s: StateModel,
    l: KohLobbyModel,
    room_id: Seq<char>,
    host_session: Seq<char>,
    join_session: Seq<char>,
    now: Timestamp,
) -> (StateModel, KohLobbyModel) {
    match l.pending {
        None => (s, l),
        Some(p) => {
            let idle = KohLobbyModel { pending: None, ..l };
            match (seat(l.members, p.champion), seat(l.members, p.challenger)) {
                (Some(i), Some(j)) => {
                    let host = l.members[i];
                    let join = l.members[j];
                    (
                        StateModel {
                            queue: s.queue.insert(
                                host_session,
                                member_session(
                                    s,
                                    l,
                                    host_session,
                                    host,
                                    PlayerRole::Host,
                                    join,
                                    room_id,
                                    now,
                                ),
                            ).insert(
                                join_session,
                                member_session(
                                    s,
                                    l,
                                    join_session,
                                    join,
                                    PlayerRole::Join,
                                    host,
                                    room_id,
                                    now,
                                ),
                            ),
                            player_sessions: s.player_sessions.insert(
                                host.player_id,
                                host_session,
                            ).insert(join.player_id, join_session),
                            ..s
                        },
                        KohLobbyModel {
                            current: Some(
                                ActiveMatchModel {
                                    host: host.player_id,
                                    join: join.player_id,
                                    room_id,
                                    host_session,
                                    join_session,
                                    started_at: now,
                                },
                            ),
                            last_activity: now,
                            ..idle
                        },
                    )
                },
                _ => (
                    s,
                    advanced(pushed_front(pushed_front(idle, p.champion), p.challenger), now),
                ),
            }
        },
    }
}

/// Puts a member at the front of the line.
fn push_front_member(lobby: &mut KohLobby, player: &str)
    ensures
        final(lobby)@ == pushed_front(old(lobby)@, player@),
{
    if find_seat(&lobby.members, player).is_some() {
        let ghost before = lobby.queue.deep_view();
        lobby.queue.push_front(player.to_string());
        proof {
            assert(lobby.queue.deep_view() == seq![player@] + before);
        }
    }
}

/// Turns a confirmed ready check into a match.
pub fn promote_pending(
    state: &mut AppState,
    lobby: &mut KohLobby,
    room_id: &str,
    host_session: &str,
    join_session: &str,
    now: Timestamp,
)
    ensures
        (final(state)@, final(lobby)@) == promoted(
            old(state)@,
            old(lobby)@,
            room_id@,
            host_session@,
            join_session@,
            now,
        ),
{
    let Some(p) = lobby.pending.take() else {
        return;
    };
    let host_seat = find_seat(&lobby.members, p.champion.as_str());
    let join_seat = find_seat(&lobby.members, p.challenger.as_str());
    match (host_seat, join_seat) {
        (Some(i), Some(j)) => {
            let host = lobby.members[i].clone();
            let join = lobby.members[j].clone();
            let host_info = meet(
                &state.config,
                PlayerRole::Host,
                join.stun_endpoint.as_str(),
                join.username.as_str(),
                room_id,
                now,
            );
            let join_info = meet(
                &state.config,
                PlayerRole::Join,
                host.stun_endpoint.as_str(),
                host.username.as_str(),
                room_id,
                now,
            );
            let host_entry = open_session(
                host_session,
                host.player_id.as_str(),
                host.username.as_str(),
                host.stun_endpoint.as_str(),
                lobby.app_version.as_str(),
                lobby.rom_hash.as_str(),
                now,
                Some(host_info),
            );
            let join_entry = open_session(
                join_session,
                join.player_id.as_str(),
                join.username.as_str(),
                join.stun_endpoint.as_str(),
                lobby.app_version.as_str(),
                lobby.rom_hash.as_str(),
                now,
                Some(join_info),
            );
            table::insert(&mut state.queue, host_session.to_string(), host_entry);
            table::insert(&mut state.queue, join_session.to_string(), join_entry);
            table::insert(
                &mut state.player_sessions,
                host.player_id.clone(),
                host_session.to_string(),
            );
            table::insert(
                &mut state.player_sessions,
                join.player_id.clone(),
                join_session.to_string(),
            );
            lobby.current = Some(
                ActiveMatch {
                    host: host.player_id,
                    join: join.player_id,
                    room_id: room_id.to_string(),
                    host_session: host_session.to_string(),
                    join_session: join_session.to_string(),
                    started_at: now,
                },
            );
            lobby.last_activity = now;
        },
        _ => {
            push_front_member(lobby, p.champion.as_str());
            push_front_member(lobby, p.challenger.as_str());
            advance_lobby(lobby, now);
        },
    }
}

// What a player sees

/// The name of a member; empty for anyone else.
pub open spec fn username_of(members: Seq<LobbyMemberModel>, player: Seq<char>) -> Seq<char> {
    match seat(members, player) {
        Some(i) => members[i].username,
        None => Seq::empty(),
    }
}

/// A player's rating, if it is known.
pub open spec fn rating_of(s: StateModel, player: Seq<char>) -> Option<i32> {
    if s.ratings.contains_key(player) {
        Some(s.ratings[player].rating)
    } else {
        None
    }
}

/// A member, as the lobby shows them.
pub open spec fn member_shown(
    s: StateModel,
    l: KohLobbyModel,
    m: LobbyMemberModel,
) -> LobbyMemberViewModel {
    LobbyMemberViewModel {
        player_id: m.player_id,
        username: m.username,
        rating: rating_of(s, m.player_id),
        role: m.role,
        in_match: plays(l, m.player_id),
    }
}

/// The session of a player in the match that a lobby is playing.
pub open spec fn session_in_match(l: KohLobbyModel, player: Seq<char>) -> Option<Seq<char>> {
    match l.current {
        Some(c) => if c.host == player {
            Some(c.host_session)
        } else if c.join == player {
            Some(c.join_session)
        } else {
            None
        },
        None => None,
    }
}

/// What a session knows of its match.
pub open spec fn match_of(s: StateModel, session_id: Option<Seq<char>>) -> Option<MatchInfoModel> {
    if session_id is Some && s.queue.contains_key(session_id->0) {
        s.queue[session_id->0].match_info
    } else {
        None
    }
}

/// A lobby, as one player sees it.
pub open spec fn lobby_shown(
    s: StateModel,
    l: KohLobbyModel,
    caller: Seq<char>,
    now: Timestamp,
) -> LobbyStateResponseModel {
    LobbyStateResponseModel {
        id: l.id,
        name: l.name,
        ranked: l.ranked,
        private: l.private,
        format: l.format,
        members: l.members.map_values(|m: LobbyMemberModel| member_shown(s, l, m)),
        queue: l.queue.map_values(|id: Seq<char>| username_of(l.members, id)),
        current: match l.current {
            Some(c) => Some(
                CurrentMatchViewModel {
                    host_username: username_of(l.members, c.host),
                    join_username: username_of(l.members, c.join),
                    host_session: c.host_session,
                    join_session: c.join_session,
                },
            ),
            None => None,
        },
        ready_check: match l.pending {
            Some(p) => Some(
                ReadyCheckViewModel {
                    champion_username: username_of(l.members, p.champion),
                    challenger_username: username_of(l.members, p.challenger),
                    seconds_left: if elapsed_secs(p.deadline, now) > 0 {
                        elapsed_secs(p.deadline, now) as i64
                    } else {
                        0
                    },
                    you_are_challenger: p.challenger == caller,
                },
            ),
            None => None,
        },
        your_position: match l.queue.index_of_first(caller) {
            Some(i) => Some(i as usize),
            None => None,
        },
        your_role: match seat(l.members, caller) {
            Some(i) => Some(l.members[i].role),
            None => None,
        },
        your_match: match_of(s, session_in_match(l, caller)),
        your_session: session_in_match(l, caller),
    }
}

/// The name of a member; empty for anyone else.
fn name_of(members: &Vec<LobbyMember>, player: &str) -> (name: String)
    ensures
        name@ == username_of(members.deep_view(), player@),
{
    match find_seat(members, player) {
        Some(i) => members[i].username.clone(),
        None => String::new(),
    }
}

/// A player's rating, if it is known.
pub fn known_rating(state: &AppState, player: &str) -> (rating: Option<i32>)
    ensures
        rating == rating_of(state@, player@),
{
    match table::get(&state.ratings, player) {
        Some(r) => Some(r.rating),
        None => None,
    }
}

/// Whether a player is in the match that a lobby is playing.
pub(crate) fn is_playing(lobby: &KohLobby, player: &str) -> (res: bool)
    ensures
        res == plays(lobby@, player@),
{
    match &lobby.current {
        Some(c) => same_text(c.host.as_str(), player) || same_text(c.join.as_str(), player),
        None => false,
    }
}

/// The members, as the lobby shows them.
fn show_members(state: &AppState, lobby: &KohLobby) -> (shown: Vec<LobbyMemberView>)
    ensures
        shown.deep_view() == lobby@.members.map_values(
            |m: LobbyMemberModel| member_shown(state@, lobby@, m),
        ),
{
    let ghost all = lobby@.members;
    let ghost f = |m: LobbyMemberModel| member_shown(state@, lobby@, m);
    let mut shown: Vec<LobbyMemberView> = Vec::new();
    let mut i: usize = 0;
    while i < lobby.members.len()
        invariant
            i <= lobby.members.len(),
            all == lobby@.members,
            f == (|m: LobbyMemberModel| member_shown(state@, lobby@, m)),
            shown.deep_view() == all.take(i as int).map_values(f),
        decreases lobby.members.len() - i,
    {
        let m = &lobby.members[i];
        let ghost before = shown.deep_view();
        shown.push(
            LobbyMemberView {
                player_id: m.player_id.clone(),
                username: m.username.clone(),
                rating: known_rating(state, m.player_id.as_str()),
                role: m.role,
                in_match: is_playing(lobby, m.player_id.as_str()),
            },
        );
        proof {
            assert(shown.deep_view() == before.push(f(all[i as int])));
            assert(all.take(i + 1) == all.take(i as int).push(all[i as int]));
        }
        i += 1;
    }
    assert(all.take(all.len() as int) == all);
    shown
}

/// The names of those in line.
fn show_line(lobby: &KohLobby) -> (names: Vec<String>)
    ensures
        names.deep_view() == lobby@.queue.map_values(
            |id: Seq<char>| username_of(lobby@.members, id),
        ),
{
    let ghost all = lobby@.queue;
    let ghost f = |id: Seq<char>| username_of(lobby@.members, id);
    let mut names: Vec<String> = Vec::new();
    let mut i: usize = 0;
    while i < lobby.queue.len()
        invariant
            i <= lobby.queue@.len(),
            all == lobby@.queue,
            f == (|id: Seq<char>| username_of(lobby@.members, id)),
            names.deep_view() == all.take(i as int).map_values(f),
        decreases lobby.queue@.len() - i,
    {
        let ghost before = names.deep_view();
        names.push(name_of(&lobby.members, lobby.queue[i].as_str()));
        proof {
            assert(names.deep_view() == before.push(f(all[i as int])));
            assert(all.take(i + 1) == all.take(i as int).push(all[i as int]));
        }
        i += 1;
    }
    assert(all.take(all.len() as int) == all);
    names
}

/// A player's place in the line.
fn place_in_line(line: &VecDeque<String>, player: &str) -> (place: Option<usize>)
    ensures
        place == (match line.deep_view().index_of_first(player@) {
            Some(i) => Some(i as usize),
            None => None,
        }),
{
    let ghost all = line.deep_view();
    let mut i: usize = 0;
    proof {
        all.index_of_first_ensures(player@);
    }
    while i < line.len()
        invariant
            i <= line@.len(),
            all == line.deep_view(),
            forall|j: int| 0 <= j < i ==> #[trigger] all[j] != player@,
            match all.index_of_first(player@) {
                Some(index) => {
                    &&& 0 <= index < all.len()
                    &&& all[index] == player@
                    &&& forall|j: int| 0 <= j < index < all.len() ==> all[j] != player@
                },
                None => forall|j: int| 0 <= j < all.len() ==> all[j] != player@,
            },
        decreases line@.len() - i,
    {
        if same_text(line[i].as_str(), player) {
            assert(all[i as int] == player@);
            return Some(i);
        }
        i += 1;
    }
    None
}

/// A lobby, as one player sees it.
pub fn lobby_state_for(state: &AppState, lobby: &KohLobby, caller: &str, now: Timestamp) -> (shown:
    LobbyStateResponse)
    ensures
        shown@ == lobby_shown(state@, lobby@, caller@, now),
{
    let current = match &lobby.current {
        Some(c) => Some(
            CurrentMatchView {
                host_username: name_of(&lobby.members, c.host.as_str()),
                join_username: name_of(&lobby.members, c.join.as_str()),
                host_session: c.host_session.clone(),
                join_session: c.join_session.clone(),
            },
        ),
        None => None,
    };
    let ready_check = match &lobby.pending {
        Some(p) => {
            let left: i64 = p.deadline.secs_since(now);
            Some(
                ReadyCheckView {
                    champion_username: name_of(&lobby.members, p.champion.as_str()),
                    challenger_username: name_of(&lobby.members, p.challenger.as_str()),
                    seconds_left: if left > 0 {
                        left
                    } else {
                        0
                    },
                    you_are_challenger: same_text(p.challenger.as_str(), caller),
                },
            )
        },
        None => None,
    };
    let your_session = match &lobby.current {
        Some(c) => if same_text(c.host.as_str(), caller) {
            Some(c.host_session.clone())
        } else if same_text(c.join.as_str(), caller) {
            Some(c.join_session.clone())
        } else {
            None
        },
        None => None,
    };
    let your_match = match &your_session {
        Some(sid) => match table::get(&state.queue, sid.as_str()) {
            Some(e) => e.match_info,
            None => None,
        },
        None => None,
    };
    let your_role = match find_seat(&lobby.members, caller) {
        Some(i) => Some(lobby.members[i].role),
        None => None,
    };
    LobbyStateResponse {
        id: lobby.id.clone(),
        name: lobby.name.clone(),
        ranked: lobby.ranked,
        private: lobby.private,
        format: lobby.format,
        members: show_members(state, lobby),
        queue: show_line(lobby),
        current,
        ready_check,
        your_position: place_in_line(&lobby.queue, caller),
        your_role,
        your_match,
        your_session,
    }
}

} // verus!
