//! The general lobby: who is there, what they say, and how they are rated.

use vstd::prelude::*;
use crate::auth::{signed_claims, token_refused, verify_token};
use crate::error::{outcome, AppError, AppErrorModel};
use crate::ids::{new_uuid, uuid_text};
use crate::lobbies::{known_rating, rating_of};
use crate::models::{
    CachedRating, CachedRatingModel, Claims, ClaimsModel, GeneralLobbyResponse,
    GeneralLobbyResponseModel, LobbyChatEntry, LobbyChatEntryModel, LobbyChatMessage,
    LobbyChatMessageModel, LobbyChatRequest, LobbyChatRequestModel, LobbyPresence,
    LobbyPresenceModel, LobbyUser, LobbyUserModel,
};
use crate::names::{clean_chat, normalize_lobby_chat};
use crate::ranking::{sort_rows, sorted_rows, views, Rank, Ranked};
use crate::rooms::lemma_listing_step;
use crate::state::{AppState, StateModel};
use crate::table::{self, lists_keys};
use crate::text::{joined, strip_back, trim_char_back};
use crate::time::{elapsed_secs, rfc3339_at, Timestamp};

verus! {

/// How many chat messages are shown.
pub const LOBBY_CHAT_VISIBLE: usize = 50;

/// How long after a heartbeat a player is shown, in seconds.
pub const LOBBY_PRESENCE_VISIBLE_SECS: i64 = 90;

/// How long a rating is used before it is fetched again, in seconds.
pub const RATING_TTL_SECS: i64 = 300;

// Heartbeats

/// The state once a player has been seen.
pub open spec fn touched(
    s: StateModel,
    player: ClaimsModel,
    status: Seq<char>,
    now: Timestamp,
) -> StateModel {
    StateModel {
        lobby_presence: s.lobby_presence.insert(
            player.sub,
            LobbyPresenceModel {
                player_id: player.sub,
                username: player.username,
                status,
                last_seen: now,
            },
        ),
        ..s
    }
}

/// Notes that a player has been seen.
pub fn touch_lobby_presence(state: &mut AppState, player: &Claims, status: &str, now: Timestamp)
    ensures
        final(state)@ == touched(old(state)@, player@, status@, now),
{
    table::insert(
        &mut state.lobby_presence,
        player.sub.clone(),
        LobbyPresence {
            player_id: player.sub.clone(),
            username: player.username.clone(),
            status: status.to_string(),
            last_seen: now,
        },
    );
}

// Chat

/// What a chat message comes to.
pub open spec fn chatted(
    s: StateModel,
    player: ClaimsModel,
    req: LobbyChatRequestModel,
    message_id: Seq<char>,
    now: Timestamp,
) -> (StateModel, Result<(), AppErrorModel>) {
    match clean_chat(req.message) {
        Ok(message) => {
            let t = touched(s, player, "chatting"@, now);
            (
                StateModel {
                    lobby_chat: t.lobby_chat.insert(
                        message_id,
                        LobbyChatEntryModel {
                            message_id,
                            player_id: player.sub,
                            username: player.username,
                            message,
                            created_at: now,
                        },
                    ),
                    ..t
                },
                Ok(()),
            )
        },
        Err(e) => (s, Err(e)),
    }
}

/// Keeps a player's chat message.
pub fn lobby_chat_at(
    state: &mut AppState,
    player: &Claims,
    req: &LobbyChatRequest,
    message_id: &str,
    now: Timestamp,
) -> (res: Result<(), AppError>)
    ensures
        (final(state)@, outcome(res)) == chatted(old(state)@, player@, req@, message_id@, now),
{
    let message = match normalize_lobby_chat(req.message.as_str()) {
        Ok(message) => message,
        Err(e) => {
            return Err(e);
        },
    };
    touch_lobby_presence(state, player, "chatting", now);
    table::insert(
        &mut state.lobby_chat,
        message_id.to_string(),
        LobbyChatEntry {
            message_id: message_id.to_string(),
            player_id: player.sub.clone(),
            username: player.username.clone(),
            message,
            created_at: now,
        },
    );
    Ok(())
}

/// Keeps the caller's chat message.
pub fn lobby_chat(state: &mut AppState, token: &str, req: &LobbyChatRequest) -> (res: Result<
    (),
    AppError,
>)
    ensures
        token_refused(res, token@, old(state)@.config.jwt_secret) ==> final(state)@ == old(state)@,
        !token_refused(res, token@, old(state)@.config.jwt_secret) ==> exists|
            player: ClaimsModel,
            message_id: Seq<char>,
            now: Timestamp,
        |
            signed_claims(token@, old(state)@.config.jwt_secret) == Some(player) && uuid_text(
                message_id,
            ) && now.nanos >= 0 && (final(state)@, outcome(res)) == #[trigger] chatted(
                old(state)@,
                player,
                req@,
                message_id,
                now,
            ),
{
    let player = match verify_token(token, state.config.jwt_secret.as_str()) {
        Ok(player) => player,
        Err(e) => {
            return Err(e);
        },
    };
    let message_id = new_uuid();
    let now = Timestamp::now();
    lobby_chat_at(state, &player, req, message_id.as_str(), now)
}

// What the lobby shows

impl Ranked for LobbyUser {
    open spec fn rank(row: LobbyUserModel) -> Rank {
        (0, row.username, row.player_id)
    }

    fn key(&self) -> (key: (i128, &str, &str)) {
        (0, self.username.as_str(), self.player_id.as_str())
    }
}

impl Ranked for LobbyChatEntry {
    open spec fn rank(row: LobbyChatEntryModel) -> Rank {
        (row.created_at.nanos as int, row.player_id, row.message_id)
    }

    fn key(&self) -> (key: (i128, &str, &str)) {
        (self.created_at.nanos, self.player_id.as_str(), self.message_id.as_str())
    }
}

/// Whether a heartbeat is recent enough for the player to be shown.
pub open spec fn present(p: LobbyPresenceModel, now: Timestamp) -> bool {
    elapsed_secs(now, p.last_seen) <= LOBBY_PRESENCE_VISIBLE_SECS
}

/// A player as the lobby shows them.
pub open spec fn user_shown(s: StateModel, p: LobbyPresenceModel) -> LobbyUserModel {
    LobbyUserModel {
        player_id: p.player_id,
        username: p.username,
        status: p.status,
        rating: rating_of(s, p.player_id),
    }
}

/// The players who are present, in the order of their keys.
pub open spec fn users_present(order: Seq<Seq<char>>, s: StateModel, now: Timestamp) -> Seq<
    LobbyUserModel,
> {
    order.filter(|k: Seq<char>| present(s.lobby_presence[k], now)).map_values(
        |k: Seq<char>| user_shown(s, s.lobby_presence[k]),
    )
}

/// The chat messages, in the order of their keys.
pub open spec fn chat_kept(order: Seq<Seq<char>>, s: StateModel) -> Seq<LobbyChatEntryModel> {
    order.map_values(|k: Seq<char>| s.lobby_chat[k])
}

/// A chat message as the lobby shows it.
pub open spec fn chat_line(e: LobbyChatEntryModel) -> LobbyChatMessageModel {
    LobbyChatMessageModel {
        username: e.username,
        message: e.message,
        timestamp: rfc3339_at(e.created_at),
    }
}

/// The latest of the messages, oldest first, as the lobby shows them.
pub open spec fn latest_lines(sorted: Seq<LobbyChatEntryModel>) -> Seq<LobbyChatMessageModel> {
    let from = if sorted.len() > LOBBY_CHAT_VISIBLE {
        sorted.len() - LOBBY_CHAT_VISIBLE
    } else {
        0
    };
    sorted.skip(from).map_values(|e: LobbyChatEntryModel| chat_line(e))
}

/// Whether `res` shows the general lobby: the players who are present, by name,
/// and the latest messages.
pub open spec fn shows_lobby(
    s: StateModel,
    now: Timestamp,
    users_order: Seq<Seq<char>>,
    chat_order: Seq<Seq<char>>,
    sorted_chat: Seq<LobbyChatEntryModel>,
    res: GeneralLobbyResponseModel,
) -> bool {
    &&& res.status == "General lobby ready"@
    &&& lists_keys(users_order, s.lobby_presence)
    &&& sorted_rows::<LobbyUser>(users_present(users_order, s, now), res.users)
    &&& lists_keys(chat_order, s.lobby_chat)
    &&& sorted_rows::<LobbyChatEntry>(chat_kept(chat_order, s), sorted_chat)
    &&& res.chat == latest_lines(sorted_chat)
}

/// Whether `res` shows the general lobby at `now`.
pub open spec fn lobby_snapshot(
    s: StateModel,
    now: Timestamp,
    res: GeneralLobbyResponseModel,
) -> bool {
    exists|
        users_order: Seq<Seq<char>>,
        chat_order: Seq<Seq<char>>,
        sorted_chat: Seq<LobbyChatEntryModel>,
    | #[trigger]
        shows_lobby(s, now, users_order, chat_order, sorted_chat, res)
}

/// The players who are present, by name.
fn show_users(state: &AppState, now: Timestamp) -> (users: Vec<LobbyUser>)
    ensures
        exists|order: Seq<Seq<char>>|
            lists_keys(order, state@.lobby_presence) && sorted_rows::<LobbyUser>(
                #[trigger] users_present(order, state@, now),
                views(users@),
            ),
{
    let keys = table::keys(&state.lobby_presence);
    let ghost order = keys.deep_view();
    let ghost p = |k: Seq<char>| present(state@.lobby_presence[k], now);
    let ghost f = |k: Seq<char>| user_shown(state@, state@.lobby_presence[k]);
    let mut rows: Vec<LobbyUser> = Vec::new();
    let mut i: usize = 0;
    assert(views(rows@) == order.take(0).filter(p).map_values(f));
    while i < keys.len()
        invariant
            i <= keys.len(),
            order == keys.deep_view(),
            lists_keys(order, state@.lobby_presence),
            p == (|k: Seq<char>| present(state@.lobby_presence[k], now)),
            f == (|k: Seq<char>| user_shown(state@, state@.lobby_presence[k])),
            views(rows@) == order.take(i as int).filter(p).map_values(f),
        decreases keys.len() - i,
    {
        let ghost before = views(rows@);
        proof {
            assert(order.contains(order[i as int]));
            lemma_listing_step(order, i as int, p, f);
        }
        if let Some(entry) = table::get(&state.lobby_presence, keys[i].as_str()) {
            if now.secs_since(entry.last_seen) <= LOBBY_PRESENCE_VISIBLE_SECS {
                let rating = known_rating(state, entry.player_id.as_str());
                rows.push(
                    LobbyUser {
                        player_id: entry.player_id,
                        username: entry.username,
                        status: entry.status,
                        rating,
                    },
                );
                proof {
                    assert(views(rows@) == before.push(f(order[i as int])));
                }
            }
        }
        i += 1;
    }
    proof {
        assert(order.take(order.len() as int) == order);
        assert(views(rows@) == users_present(order, state@, now));
    }
    sort_rows(rows)
}

/// The chat messages, oldest first.
fn sort_chat(state: &AppState) -> (sorted: Vec<LobbyChatEntry>)
    ensures
        exists|order: Seq<Seq<char>>|
            lists_keys(order, state@.lobby_chat) && sorted_rows::<LobbyChatEntry>(
                #[trigger] chat_kept(order, state@),
                views(sorted@),
            ),
{
    let keys = table::keys(&state.lobby_chat);
    let ghost order = keys.deep_view();
    let ghost f = |k: Seq<char>| state@.lobby_chat[k];
    let mut rows: Vec<LobbyChatEntry> = Vec::new();
    let mut i: usize = 0;
    assert(views(rows@) == order.take(0).map_values(f));
    while i < keys.len()
        invariant
            i <= keys.len(),
            order == keys.deep_view(),
            lists_keys(order, state@.lobby_chat),
            f == (|k: Seq<char>| state@.lobby_chat[k]),
            views(rows@) == order.take(i as int).map_values(f),
        decreases keys.len() - i,
    {
        let ghost before = views(rows@);
        proof {
            assert(order.contains(order[i as int]));
            assert(order.take(i + 1).map_values(f) == order.take(i as int).map_values(f).push(
                f(order[i as int]),
            ));
        }
        if let Some(entry) = table::get(&state.lobby_chat, keys[i].as_str()) {
            rows.push(entry);
            proof {
                assert(views(rows@) == before.push(f(order[i as int])));
            }
        }
        i += 1;
    }
    proof {
        assert(order.take(order.len() as int) == order);
        assert(views(rows@) == chat_kept(order, state@));
    }
    sort_rows(rows)
}

/// The latest of the messages, as the lobby shows them.
fn show_lines(sorted: &Vec<LobbyChatEntry>) -> (lines: Vec<LobbyChatMessage>)
    ensures
        lines.deep_view() == latest_lines(views(sorted@)),
{
    let ghost all = views(sorted@);
    let from: usize = if sorted.len() > LOBBY_CHAT_VISIBLE {
        sorted.len() - LOBBY_CHAT_VISIBLE
    } else {
        0
    };
    let mut lines: Vec<LobbyChatMessage> = Vec::new();
    let mut i: usize = from;
    while i < sorted.len()
        invariant
            from <= i <= sorted.len(),
            all == views(sorted@),
            lines.deep_view() == all.subrange(from as int, i as int).map_values(
                |e: LobbyChatEntryModel| chat_line(e),
            ),
        decreases sorted.len() - i,
    {
        let e = &sorted[i];
        let ghost before = lines.deep_view();
        lines.push(
            LobbyChatMessage {
                username: e.username.clone(),
                message: e.message.clone(),
                timestamp: e.created_at.rfc3339(),
            },
        );
        proof {
            assert(lines.deep_view() == before.push(chat_line(all[i as int])));
            assert(all.subrange(from as int, i + 1) == all.subrange(from as int, i as int).push(
                all[i as int],
            ));
        }
        i += 1;
    }
    assert(all.subrange(from as int, all.len() as int) == all.skip(from as int));
    lines
}

/// What the general lobby shows at a point in time.
pub fn general_lobby_snapshot(state: &AppState, now: Timestamp) -> (res: GeneralLobbyResponse)
    ensures
        lobby_snapshot(state@, now, res@),
{
    let users = show_users(state, now);
    let sorted = sort_chat(state);
    let chat = show_lines(&sorted);
    let res = GeneralLobbyResponse { status: "General lobby ready".to_string(), users, chat };
    proof {
        let users_order = choose|order: Seq<Seq<char>>|
            lists_keys(order, state@.lobby_presence) && sorted_rows::<LobbyUser>(
                #[trigger] users_present(order, state@, now),
                views(users@),
            );
        let chat_order = choose|order: Seq<Seq<char>>|
            lists_keys(order, state@.lobby_chat) && sorted_rows::<LobbyChatEntry>(
                #[trigger] chat_kept(order, state@),
                views(sorted@),
            );
        assert(res@.users == views(users@));
        assert(shows_lobby(state@, now, users_order, chat_order, views(sorted@), res@));
    }
    res
}

// Ratings

/// Whether a player's rating is to be fetched: the player is present, and the
/// rating is missing or has grown old.
pub open spec fn rating_wanted(s: StateModel, p: LobbyPresenceModel, now: Timestamp) -> bool {
    present(p, now) && !(s.ratings.contains_key(p.player_id) && elapsed_secs(
        now,
        s.ratings[p.player_id].fetched_at,
    ) <= RATING_TTL_SECS)
}

/// Where a player's rating is fetched from.
pub open spec fn rating_url(stats_url: Seq<char>, player: Seq<char>) -> Seq<char> {
    strip_back(stats_url, |c: char| c == '/') + "/player/"@ + player
}

/// A rating to fetch.
#[derive(Debug)]
pub struct RatingFetch {
    pub player_id: String,
    pub url: String,
}

impl View for RatingFetch {
    type V = (Seq<char>, Seq<char>);

    open spec fn view(&self) -> (Seq<char>, Seq<char>) {
        (self.player_id@, self.url@)
    }
}

/// The ratings to fetch, in the order of their keys: none where there is no stats
/// service.
pub open spec fn rating_fetches(order: Seq<Seq<char>>, s: StateModel, now: Timestamp) -> Seq<
    (Seq<char>, Seq<char>),
> {
    if s.config.stats_service_url is None {
        Seq::empty()
    } else {
        order.filter(|k: Seq<char>| rating_wanted(s, s.lobby_presence[k], now)).map_values(
            |k: Seq<char>|
                (
                    s.lobby_presence[k].player_id,
                    rating_url(s.config.stats_service_url->0, s.lobby_presence[k].player_id),
                ),
        )
    }
}

/// The ratings to fetch at a point in time.
pub fn ensure_lobby_ratings(state: &AppState, now: Timestamp) -> (fetches: Vec<RatingFetch>)
    ensures
        exists|order: Seq<Seq<char>>|
            lists_keys(order, state@.lobby_presence) && views(fetches@)
                == #[trigger] rating_fetches(order, state@, now),
{
    let keys = table::keys(&state.lobby_presence);
    let ghost order = keys.deep_view();
    let mut rows: Vec<RatingFetch> = Vec::new();
    let Some(stats_url) = &state.config.stats_service_url else {
        proof {
            assert(views(rows@) == rating_fetches(order, state@, now));
        }
        return rows;
    };
    let ghost p = |k: Seq<char>| rating_wanted(state@, state@.lobby_presence[k], now);
    let ghost f = |k: Seq<char>|
        (
            state@.lobby_presence[k].player_id,
            rating_url(stats_url@, state@.lobby_presence[k].player_id),
        );
    let mut i: usize = 0;
    assert(views(rows@) == order.take(0).filter(p).map_values(f));
    while i < keys.len()
        invariant
            i <= keys.len(),
            order == keys.deep_view(),
            lists_keys(order, state@.lobby_presence),
            p == (|k: Seq<char>| rating_wanted(state@, state@.lobby_presence[k], now)),
            f == (|k: Seq<char>|
                (
                    state@.lobby_presence[k].player_id,
                    rating_url(stats_url@, state@.lobby_presence[k].player_id),
                )),
            views(rows@) == order.take(i as int).filter(p).map_values(f),
        decreases keys.len() - i,
    {
        let ghost before = views(rows@);
        proof {
            assert(order.contains(order[i as int]));
            lemma_listing_step(order, i as int, p, f);
        }
        if let Some(entry) = table::get(&state.lobby_presence, keys[i].as_str()) {
            let fresh = match table::get(&state.ratings, entry.player_id.as_str()) {
                Some(r) => now.secs_since(r.fetched_at) <= RATING_TTL_SECS,
                None => false,
            };
            if now.secs_since(entry.last_seen) <= LOBBY_PRESENCE_VISIBLE_SECS && !fresh {
                let base = trim_char_back(stats_url.as_str(), '/');
                let mut url = joined(base.as_str(), "/player/");
                url.append(entry.player_id.as_str());
                rows.push(RatingFetch { player_id: entry.player_id, url });
                proof {
                    assert(views(rows@) == before.push(f(order[i as int])));
                }
            }
        }
        i += 1;
    }
    proof {
        assert(order.take(order.len() as int) == order);
        assert(views(rows@) == rating_fetches(order, state@, now));
    }
    rows
}

// Looking in

/// Whether these are the ratings to fetch at `now`.
pub open spec fn fetches_wanted(
    s: StateModel,
    now: Timestamp,
    fetches: Seq<(Seq<char>, Seq<char>)>,
) -> bool {
    exists|order: Seq<Seq<char>>|
        lists_keys(order, s.lobby_presence) && fetches == #[trigger] rating_fetches(order, s, now)
}

/// The state once someone has looked in; a player who is known is noted as
/// present.
pub open spec fn looked_in(s: StateModel, player: Option<ClaimsModel>, now: Timestamp) -> StateModel {
    match player {
        Some(p) => touched(s, p, "online"@, now),
        None => s,
    }
}

/// Shows the general lobby to someone, a known player or not, and gives the
/// ratings to fetch for the next time.
pub fn general_lobby_for(state: &mut AppState, player: Option<&Claims>, now: Timestamp) -> (res: (
    GeneralLobbyResponse,
    Vec<RatingFetch>,
))
    ensures
        final(state)@ == looked_in(
            old(state)@,
            match player {
                Some(p) => Some(p@),
                None => None,
            },
            now,
        ),
        lobby_snapshot(final(state)@, now, res.0@),
        fetches_wanted(final(state)@, now, views(res.1@)),
{
    if let Some(player) = player {
        touch_lobby_presence(state, player, "online", now);
    }
    let fetches = ensure_lobby_ratings(state, now);
    (general_lobby_snapshot(state, now), fetches)
}

/// Whether this is what a token's holder is known as: nobody without a token, and
/// nobody where the token is not accepted.
pub open spec fn known_as(
    token: Option<Seq<char>>,
    secret: Seq<char>,
    player: Option<ClaimsModel>,
) -> bool {
    player is Some ==> token is Some && signed_claims(token->0, secret) == player
}

/// Shows the general lobby, and gives the ratings to fetch for the next time.
/// Whoever comes with a token that is accepted is noted as present; others may
/// look, too.
pub fn general_lobby(state: &mut AppState, token: Option<&str>) -> (res: (
    GeneralLobbyResponse,
    Vec<RatingFetch>,
))
    ensures
        exists|player: Option<ClaimsModel>, now: Timestamp|
            known_as(token.deep_view(), old(state)@.config.jwt_secret, player) && now.nanos >= 0
                && final(state)@ == #[trigger] looked_in(old(state)@, player, now)
                && lobby_snapshot(final(state)@, now, res.0@) && fetches_wanted(
                final(state)@,
                now,
                views(res.1@),
            ),
{
    let now = Timestamp::now();
    let player = match token {
        Some(token) => match verify_token(token, state.config.jwt_secret.as_str()) {
            Ok(player) => Some(player),
            Err(_) => None,
        },
        None => None,
    };
    let ghost known = match &player {
        Some(p) => Some(p@),
        None => None,
    };
    proof {
        assert(known_as(token.deep_view(), old(state)@.config.jwt_secret, known));
    }
    let res = general_lobby_for(state, player.as_ref(), now);
    proof {
        assert(state@ == looked_in(old(state)@, known, now));
    }
    res
}

/// Keeps a rating that was fetched.
pub fn keep_rating(state: &mut AppState, player_id: &str, rating: i32, now: Timestamp)
    ensures
        final(state)@ == (StateModel {
            ratings: old(state)@.ratings.insert(
                player_id@,
                CachedRatingModel { rating, fetched_at: now },
            ),
            ..old(state)@
        }),
{
    table::insert(
        &mut state.ratings,
        player_id.to_string(),
        CachedRating { rating, fetched_at: now },
    );
}

} // verus!
