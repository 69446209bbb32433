//! The state of the service.

use dashmap::DashMap;
use vstd::prelude::*;
use crate::config::{Config, ConfigModel};
use crate::models::{
    CachedRating, CachedRatingModel, Challenge, ChallengeModel, ConfirmedResult,
    ConfirmedResultModel, KohLobby, KohLobbyModel, LobbyChatEntry, LobbyChatEntryModel,
    LobbyPresence, LobbyPresenceModel, LobbyThumb, LobbyThumbModel, OAuthState, OAuthStateModel,
    PendingResult, PendingResultModel, QueueEntry, QueueEntryModel, SparRoom, SparRoomModel,
    SpectatorFrame, SpectatorFrameModel,
};
use crate::table::{
    challenge_rows, chat_rows, confirmed_rows, frame_rows, lobby_rows, oauth_rows, pending_rows,
    presence_rows, queue_rows, rating_rows, room_rows, session_rows, thumb_rows,
};
use crate::table::{
    new_challenge_table, new_chat_table, new_confirmed_table, new_frame_table, new_lobby_table,
    new_oauth_table, new_pending_table, new_presence_table, new_queue_table, new_rating_table,
    new_room_table, new_session_table, new_thumb_table,
};

verus! {

/// The state of the service. Requests are served one at a time.
pub struct AppState {
    pub config: Config,
    /// Sessions, by session id.
    pub queue: DashMap<String, QueueEntry>,
    /// Each player's current session, by player id.
    pub player_sessions: DashMap<String, String>,
    /// Results that one player has reported, by result id (`room_id#match_index`).
    pub pending_results: DashMap<String, PendingResult>,
    /// Results that both players have reported, by result id.
    pub confirmed_results: DashMap<String, ConfirmedResult>,
    /// Spar rooms, by room id.
    pub spar_rooms: DashMap<String, SparRoom>,
    /// Heartbeats in the general lobby, by player id.
    pub lobby_presence: DashMap<String, LobbyPresence>,
    /// Chat messages, by message id.
    pub lobby_chat: DashMap<String, LobbyChatEntry>,
    /// Challenges, by challenge id.
    pub challenges: DashMap<String, Challenge>,
    /// The latest frame that a player pushed, by session id.
    pub spectator_frames: DashMap<String, SpectatorFrame>,
    /// Nonces of Discord logins in flight.
    pub oauth_states: DashMap<String, OAuthState>,
    /// Ratings, by player id.
    pub ratings: DashMap<String, CachedRating>,
    /// King-of-the-hill lobbies, by lobby id.
    pub koh_lobbies: DashMap<String, KohLobby>,
    /// The latest screenshot of each lobby's match, by lobby id.
    pub lobby_thumbs: DashMap<String, LobbyThumb>,
}

/// The model of [`AppState`].
#[verifier::ext_equal]
pub struct StateModel {
    pub config: ConfigModel,
    pub queue: Map<Seq<char>, QueueEntryModel>,
    pub player_sessions: Map<Seq<char>, Seq<char>>,
    pub pending_results: Map<Seq<char>, PendingResultModel>,
    pub confirmed_results: Map<Seq<char>, ConfirmedResultModel>,
    pub spar_rooms: Map<Seq<char>, SparRoomModel>,
    pub lobby_presence: Map<Seq<char>, LobbyPresenceModel>,
    pub lobby_chat: Map<Seq<char>, LobbyChatEntryModel>,
    pub challenges: Map<Seq<char>, ChallengeModel>,
    pub spectator_frames: Map<Seq<char>, SpectatorFrameModel>,
    pub oauth_states: Map<Seq<char>, OAuthStateModel>,
    pub ratings: Map<Seq<char>, CachedRatingModel>,
    pub koh_lobbies: Map<Seq<char>, KohLobbyModel>,
    pub lobby_thumbs: Map<Seq<char>, LobbyThumbModel>,
}

impl View for AppState {
    type V = StateModel;

    open spec fn view(&self) -> StateModel {
        StateModel {
            config: self.config@,
            queue: queue_rows(self.queue),
            player_sessions: session_rows(self.player_sessions),
            pending_results: pending_rows(self.pending_results),
            confirmed_results: confirmed_rows(self.confirmed_results),
            spar_rooms: room_rows(self.spar_rooms),
            lobby_presence: presence_rows(self.lobby_presence),
            lobby_chat: chat_rows(self.lobby_chat),
            challenges: challenge_rows(self.challenges),
            spectator_frames: frame_rows(self.spectator_frames),
            oauth_states: oauth_rows(self.oauth_states),
            ratings: rating_rows(self.ratings),
            koh_lobbies: lobby_rows(self.koh_lobbies),
            lobby_thumbs: thumb_rows(self.lobby_thumbs),
        }
    }
}

/// The state of a service that has just started.
pub open spec fn fresh_state(config: ConfigModel) -> StateModel {
    StateModel {
        config,
        queue: Map::empty(),
        player_sessions: Map::empty(),
        pending_results: Map::empty(),
        confirmed_results: Map::empty(),
        spar_rooms: Map::empty(),
        lobby_presence: Map::empty(),
        lobby_chat: Map::empty(),
        challenges: Map::empty(),
        spectator_frames: Map::empty(),
        oauth_states: Map::empty(),
        ratings: Map::empty(),
        koh_lobbies: Map::empty(),
        lobby_thumbs: Map::empty(),
    }
}

impl AppState {
    /// A service that has just started.
    pub fn new(config: Config) -> (state: AppState)
        ensures
            state@ == fresh_state(config@),
    {
        AppState {
            config,
            queue: new_queue_table(),
            player_sessions: new_session_table(),
            pending_results: new_pending_table(),
            confirmed_results: new_confirmed_table(),
            spar_rooms: new_room_table(),
            lobby_presence: new_presence_table(),
            lobby_chat: new_chat_table(),
            challenges: new_challenge_table(),
            spectator_frames: new_frame_table(),
            oauth_states: new_oauth_table(),
            ratings: new_rating_table(),
            koh_lobbies: new_lobby_table(),
            lobby_thumbs: new_thumb_table(),
        }
    }
}

} // verus!
