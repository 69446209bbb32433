//! Sessions: what a player holds from the request for an opponent to the end of
//! the match.

use dashmap::DashMap;
use vstd::prelude::*;
use crate::config::{relay_configured, Config, ConfigModel};
use crate::models::{
    MatchInfo, MatchInfoModel, PlayerRole, QueueEntry, QueueEntryModel,
    TurnCredentials, TurnCredentialsModel,
};
use crate::table::{self, first_in, lists_keys, queue_rows};
use crate::text::{contains_char, same_text};
use crate::time::{unix_millis_after, Timestamp};
use crate::turn::{credentials, issue_second, issued_second, mint_credentials_at};

verus! {

/// How long relay credentials are good for, in seconds.
pub const TURN_TTL_SECS: u64 = 3600;

/// How long after the pairing both sides start to punch, in milliseconds.
pub const PUNCH_DELAY_MS: u16 = 2500;

/// The table of sessions.
pub type Sessions = Map<Seq<char>, QueueEntryModel>;

/// Whether a text can be an endpoint: host and port are parted by a colon.
pub open spec fn endpoint(s: Seq<char>) -> bool {
    s.contains(':')
}

/// Whether a text can be an endpoint.
pub fn is_endpoint(s: &str) -> (res: bool)
    ensures
        res == endpoint(s@),
{
    contains_char(s, ':')
}

/// Whether a session is matched, and in this room.
pub open spec fn in_room(e: QueueEntryModel, room_id: Seq<char>) -> bool {
    e.match_info is Some && e.match_info->0.room_id == room_id
}

/// Whether a session is the other player's in this room.
pub open spec fn partner(e: QueueEntryModel, player: Seq<char>, room_id: Seq<char>) -> bool {
    e.discord_id != player && in_room(e, room_id)
}

/// Whether a session still waits for an opponent.
pub open spec fn waiting(e: QueueEntryModel) -> bool {
    !e.cancelled && e.match_info is None
}

/// Whether a session waits for an opponent such as this player. Players pair
/// only where both the version and the game image are the same.
pub open spec fn eligible(
    e: QueueEntryModel,
    player: Seq<char>,
    app_version: Seq<char>,
    rom_hash: Seq<char>,
) -> bool {
    waiting(e) && e.discord_id != player && e.app_version == app_version && e.rom_hash == rom_hash
}

/// A session, cancelled.
pub open spec fn cancelled(e: QueueEntryModel) -> QueueEntryModel {
    QueueEntryModel { cancelled: true, ..e }
}

/// A session, matched.
pub open spec fn matched(e: QueueEntryModel, info: MatchInfoModel) -> QueueEntryModel {
    QueueEntryModel { match_info: Some(info), ..e }
}

/// The table with one session cancelled, if there is such a session.
pub open spec fn cancel_one(queue: Sessions, session_id: Seq<char>) -> Sessions {
    if queue.contains_key(session_id) {
        queue.insert(session_id, cancelled(queue[session_id]))
    } else {
        queue
    }
}

/// The table with the sessions of everyone else in a room cancelled.
pub open spec fn cancel_partners(
    queue: Sessions,
    player: Seq<char>,
    room_id: Seq<char>,
) -> Sessions {
    queue.map_values(
        |e: QueueEntryModel|
            if partner(e, player, room_id) {
                cancelled(e)
            } else {
                e
            },
    )
}

/// The opponent whom a player meets first.
pub open spec fn first_opponent(
    order: Seq<Seq<char>>,
    queue: Sessions,
    player: Seq<char>,
    app_version: Seq<char>,
    rom_hash: Seq<char>,
) -> Option<Seq<char>> {
    first_in(order, queue, |e: QueueEntryModel| eligible(e, player, app_version, rom_hash))
}

/// The other player's session in a room.
pub open spec fn first_partner(
    order: Seq<Seq<char>>,
    queue: Sessions,
    player: Seq<char>,
    room_id: Seq<char>,
) -> Option<Seq<char>> {
    first_in(order, queue, |e: QueueEntryModel| partner(e, player, room_id))
}

/// The relay credentials of `role` in a room, where a relay is configured.
pub open spec fn room_credentials(
    config: ConfigModel,
    room_id: Seq<char>,
    role: nat,
    now: Timestamp,
) -> Option<TurnCredentialsModel> {
    if relay_configured(config) {
        Some(
            credentials(
                config.turn_shared_secret->0,
                config.turn_server_ip->0,
                room_id,
                role,
                TURN_TTL_SECS,
                issued_second(now),
            ),
        )
    } else {
        None
    }
}

/// The number by which the relay knows a role.
pub open spec fn relay_role(role: PlayerRole) -> nat {
    match role {
        PlayerRole::Host => 0,
        PlayerRole::Join => 1,
    }
}

/// What a player is told of the opponent at `peer_endpoint` on pairing.
pub open spec fn meeting(
    config: ConfigModel,
    role: PlayerRole,
    peer_endpoint: Seq<char>,
    peer_username: Seq<char>,
    room_id: Seq<char>,
    now: Timestamp,
) -> MatchInfoModel {
    MatchInfoModel {
        role,
        peer_endpoint,
        punch_at_ms: unix_millis_after(now, PUNCH_DELAY_MS as int) as i64,
        room_id,
        username: peer_username,
        turn: room_credentials(config, room_id, relay_role(role), now),
    }
}

/// A session that has just been opened.
pub open spec fn opened(
    session_id: Seq<char>,
    player_id: Seq<char>,
    username: Seq<char>,
    stun_endpoint: Seq<char>,
    app_version: Seq<char>,
    rom_hash: Seq<char>,
    now: Timestamp,
    match_info: Option<MatchInfoModel>,
) -> QueueEntryModel {
    QueueEntryModel {
        session_id,
        discord_id: player_id,
        username,
        stun_endpoint,
        app_version,
        rom_hash,
        queued_at: now,
        match_info,
        cancelled: false,
        relayed_addr: None,
    }
}

/// Whether a session is matched, and in this room.
pub fn is_in_room(e: &QueueEntry, room_id: &str) -> (res: bool)
    ensures
        res == in_room(e@, room_id@),
{
    match &e.match_info {
        Some(info) => same_text(info.room_id.as_str(), room_id),
        None => false,
    }
}

/// Cancels a session, if there is such a session.
pub(crate) fn cancel_session(queue: &mut DashMap<String, QueueEntry>, session_id: &str)
    ensures
        queue_rows(*final(queue)) == cancel_one(queue_rows(*old(queue)), session_id@),
{
    if let Some(mut entry) = table::remove(queue, session_id) {
        entry.cancelled = true;
        table::insert(queue, session_id.to_string(), entry);
    }
}

/// Cancels the sessions of everyone else in a room.
pub(crate) fn cancel_others(queue: &mut DashMap<String, QueueEntry>, player: &str, room_id: &str)
    ensures
        queue_rows(*final(queue)) == cancel_partners(queue_rows(*old(queue)), player@, room_id@),
{
    let keys = table::keys(queue);
    let ghost before = queue_rows(*queue);
    let ghost after = cancel_partners(before, player@, room_id@);
    let mut i: usize = 0;
    while i < keys.len()
        invariant
            i <= keys.len(),
            lists_keys(keys.deep_view(), before),
            after == cancel_partners(before, player@, room_id@),
            queue_rows(*queue).dom() == before.dom(),
            forall|j: int|
                0 <= j < i ==> queue_rows(*queue)[#[trigger] keys.deep_view()[j]]
                    == after[keys.deep_view()[j]],
            forall|j: int|
                i <= j < keys.len() ==> queue_rows(*queue)[#[trigger] keys.deep_view()[j]]
                    == before[keys.deep_view()[j]],
        decreases keys.len() - i,
    {
        let key = keys[i].as_str();
        proof {
            assert(keys.deep_view()[i as int] == key@);
            assert(keys.deep_view().contains(key@));
            assert(before.contains_key(key@));
        }
        if let Some(entry) = table::get(queue, key) {
            if !same_text(entry.discord_id.as_str(), player) && is_in_room(&entry, room_id) {
                cancel_session(queue, key);
            }
        }
        i += 1;
    }
    proof {
        assert forall|k: Seq<char>| before.contains_key(k) implies queue_rows(*queue)[k]
            == after[k] by {
            assert(keys.deep_view().contains(k));
        }
        assert(queue_rows(*queue) =~= after);
    }
}

/// The first session in a given order whose player can be the opponent of
/// `player`.
pub(crate) fn find_opponent(
    order: &Vec<String>,
    queue: &DashMap<String, QueueEntry>,
    player: &str,
    app_version: &str,
    rom_hash: &str,
) -> (found: Option<(String, QueueEntry)>)
    ensures
        match found {
            Some((key, entry)) => first_opponent(
                order.deep_view(),
                queue_rows(*queue),
                player@,
                app_version@,
                rom_hash@,
            ) == Some(key@) && queue_rows(*queue).contains_key(key@) && entry@ == queue_rows(
                *queue,
            )[key@] && eligible(entry@, player@, app_version@, rom_hash@),
            None => first_opponent(
                order.deep_view(),
                queue_rows(*queue),
                player@,
                app_version@,
                rom_hash@,
            ) is None,
        },
{
    let ghost rows = queue_rows(*queue);
    let mut i: usize = 0;
    assert(order.deep_view().skip(0) == order.deep_view());
    while i < order.len()
        invariant
            i <= order.len(),
            rows == queue_rows(*queue),
            first_opponent(order.deep_view(), rows, player@, app_version@, rom_hash@)
                == first_opponent(
                order.deep_view().skip(i as int),
                rows,
                player@,
                app_version@,
                rom_hash@,
            ),
        decreases order.len() - i,
    {
        let key = order[i].as_str();
        proof {
            assert(order.deep_view().skip(i as int)[0] == key@);
            assert(order.deep_view().skip(i as int).drop_first() == order.deep_view().skip(i + 1));
        }
        if let Some(entry) = table::get(queue, key) {
            if !entry.cancelled && entry.match_info.is_none() && !same_text(
                entry.discord_id.as_str(),
                player,
            ) && same_text(entry.app_version.as_str(), app_version) && same_text(
                entry.rom_hash.as_str(),
                rom_hash,
            ) {
                return Some((key.to_string(), entry));
            }
        }
        i += 1;
    }
    None
}

/// The other player's session in a room: the first one in a given order.
pub(crate) fn find_partner(
    order: &Vec<String>,
    queue: &DashMap<String, QueueEntry>,
    player: &str,
    room_id: &str,
) -> (found: Option<QueueEntry>)
    ensures
        match found {
            Some(entry) => first_partner(order.deep_view(), queue_rows(*queue), player@, room_id@)
                matches Some(key) && queue_rows(*queue).contains_key(key) && entry@ == queue_rows(
                *queue,
            )[key] && partner(entry@, player@, room_id@),
            None => first_partner(
                order.deep_view(),
                queue_rows(*queue),
                player@,
                room_id@,
            ) is None,
        },
{
    let ghost rows = queue_rows(*queue);
    let mut i: usize = 0;
    assert(order.deep_view().skip(0) == order.deep_view());
    while i < order.len()
        invariant
            i <= order.len(),
            rows == queue_rows(*queue),
            first_partner(order.deep_view(), rows, player@, room_id@) == first_partner(
                order.deep_view().skip(i as int),
                rows,
                player@,
                room_id@,
            ),
        decreases order.len() - i,
    {
        let key = order[i].as_str();
        proof {
            assert(order.deep_view().skip(i as int)[0] == key@);
            assert(order.deep_view().skip(i as int).drop_first() == order.deep_view().skip(i + 1));
        }
        if let Some(entry) = table::get(queue, key) {
            if !same_text(entry.discord_id.as_str(), player) && is_in_room(&entry, room_id) {
                return Some(entry);
            }
        }
        i += 1;
    }
    None
}

/// Issues the relay credentials of one player of a match, where a relay is
/// configured. Each player needs a credential of their own: the role is part
/// of what the relay authenticates.
pub fn mint_turn_for_room(config: &Config, room_id: &str, role: u8, now: Timestamp) -> (creds:
    Option<TurnCredentials>)
    ensures
        creds.deep_view() == room_credentials(config@, room_id@, role as nat, now),
{
    match (&config.turn_server_ip, &config.turn_shared_secret) {
        (Some(ip), Some(secret)) => Some(
            mint_credentials_at(
                secret.as_str(),
                ip.as_str(),
                room_id,
                role,
                TURN_TTL_SECS,
                issue_second(now),
            ),
        ),
        _ => None,
    }
}

/// What a player is told of the opponent on pairing.
pub fn meet(
    config: &Config,
    role: PlayerRole,
    peer_endpoint: &str,
    peer_username: &str,
    room_id: &str,
    now: Timestamp,
) -> (info: MatchInfo)
    ensures
        info@ == meeting(config@, role, peer_endpoint@, peer_username@, room_id@, now),
{
    let number: u8 = match role {
        PlayerRole::Host => 0,
        PlayerRole::Join => 1,
    };
    MatchInfo {
        role,
        peer_endpoint: peer_endpoint.to_string(),
        punch_at_ms: now.millis_after(PUNCH_DELAY_MS),
        room_id: room_id.to_string(),
        username: peer_username.to_string(),
        turn: mint_turn_for_room(config, room_id, number, now),
    }
}

/// Opens a session.
pub fn open_session(
    session_id: &str,
    player_id: &str,
    username: &str,
    stun_endpoint: &str,
    app_version: &str,
    rom_hash: &str,
    now: Timestamp,
    match_info: Option<MatchInfo>,
) -> (e: QueueEntry)
    ensures
        e@ == opened(
            session_id@,
            player_id@,
            username@,
            stun_endpoint@,
            app_version@,
            rom_hash@,
            now,
            match_info.deep_view(),
        ),
{
    QueueEntry {
        session_id: session_id.to_string(),
        discord_id: player_id.to_string(),
        username: username.to_string(),
        stun_endpoint: stun_endpoint.to_string(),
        app_version: app_version.to_string(),
        rom_hash: rom_hash.to_string(),
        queued_at: now,
        match_info,
        cancelled: false,
        relayed_addr: None,
    }
}

} // verus!
