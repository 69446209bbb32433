//! Requests, responses and the records that the service keeps, each with its
//! mathematical model.

use std::collections::VecDeque;
use vstd::prelude::*;
use crate::time::Timestamp;

verus! {

// Accounts

/// A Discord account, as Discord describes it.
#[derive(Debug)]
pub struct DiscordUser {
    pub id: String,
    pub username: String,
    pub discriminator: String,
    pub avatar: Option<String>,
}

/// The model of [`DiscordUser`].
#[verifier::ext_equal]
pub struct DiscordUserModel {
    pub id: Seq<char>,
    pub username: Seq<char>,
    pub discriminator: Seq<char>,
    pub avatar: Option<Seq<char>>,
}

impl View for DiscordUser {
    type V = DiscordUserModel;

    open spec fn view(&self) -> DiscordUserModel {
        DiscordUserModel {
            id: self.id@,
            username: self.username@,
            discriminator: self.discriminator@,
            avatar: self.avatar.deep_view(),
        }
    }
}

/// What a bearer token says of its holder.
#[derive(Debug)]
pub struct Claims {
    /// The player's id.
    pub sub: String,
    pub username: String,
    pub email: Option<String>,
    /// Expiry, in seconds since the Unix epoch.
    pub exp: usize,
}

/// The model of [`Claims`].
#[verifier::ext_equal]
pub struct ClaimsModel {
    pub sub: Seq<char>,
    pub username: Seq<char>,
    pub email: Option<Seq<char>>,
    pub exp: usize,
}

impl View for Claims {
    type V = ClaimsModel;

    open spec fn view(&self) -> ClaimsModel {
        ClaimsModel {
            sub: self.sub@,
            username: self.username@,
            email: self.email.deep_view(),
            exp: self.exp,
        }
    }
}

impl Clone for Claims {
    fn clone(&self) -> (copy: Claims)
        ensures
            copy@ == self@,
    {
        Claims {
            sub: self.sub.clone(),
            username: self.username.clone(),
            email: copy_opt_text(&self.email),
            exp: self.exp,
        }
    }
}

/// A request to play without a Discord account.
#[derive(Debug)]
pub struct GuestAuthRequest {
    pub username: String,
    pub email: Option<String>,
    pub device_id: Option<String>,
}

/// The model of [`GuestAuthRequest`].
#[verifier::ext_equal]
pub struct GuestAuthRequestModel {
    pub username: Seq<char>,
    pub email: Option<Seq<char>>,
    pub device_id: Option<Seq<char>>,
}

impl View for GuestAuthRequest {
    type V = GuestAuthRequestModel;

    open spec fn view(&self) -> GuestAuthRequestModel {
        GuestAuthRequestModel {
            username: self.username@,
            email: self.email.deep_view(),
            device_id: self.device_id.deep_view(),
        }
    }
}

/// A guest's bearer token.
#[derive(Debug)]
pub struct GuestAuthResponse {
    pub token: String,
    pub username: String,
    /// Expiry, in seconds since the Unix epoch.
    pub expires_at: usize,
}

/// The model of [`GuestAuthResponse`].
#[verifier::ext_equal]
pub struct GuestAuthResponseModel {
    pub token: Seq<char>,
    pub username: Seq<char>,
    pub expires_at: usize,
}

impl View for GuestAuthResponse {
    type V = GuestAuthResponseModel;

    open spec fn view(&self) -> GuestAuthResponseModel {
        GuestAuthResponseModel {
            token: self.token@,
            username: self.username@,
            expires_at: self.expires_at,
        }
    }
}

/// What Discord hands back when a login returns.
#[derive(Debug)]
pub struct CallbackParams {
    pub code: String,
    /// The nonce that the login was started with. It is required.
    pub state: Option<String>,
}

/// The model of [`CallbackParams`].
#[verifier::ext_equal]
pub struct CallbackParamsModel {
    pub code: Seq<char>,
    pub state: Option<Seq<char>>,
}

impl View for CallbackParams {
    type V = CallbackParamsModel;

    open spec fn view(&self) -> CallbackParamsModel {
        CallbackParamsModel {
            code: self.code@,
            state: self.state.deep_view(),
        }
    }
}

// Matchmaking

/// A request for an opponent. Players whose versions or game images differ
/// never pair.
#[derive(Debug)]
pub struct LfgRequest {
    /// "ip:port" of the caller, as a STUN server sees it.
    pub stun_endpoint: String,
    pub app_version: String,
    /// Hex fingerprint of the caller's game image.
    pub rom_hash: String,
}

/// The model of [`LfgRequest`].
#[verifier::ext_equal]
pub struct LfgRequestModel {
    pub stun_endpoint: Seq<char>,
    pub app_version: Seq<char>,
    pub rom_hash: Seq<char>,
}

impl View for LfgRequest {
    type V = LfgRequestModel;

    open spec fn view(&self) -> LfgRequestModel {
        LfgRequestModel {
            stun_endpoint: self.stun_endpoint@,
            app_version: self.app_version@,
            rom_hash: self.rom_hash@,
        }
    }
}

/// The session that a request for an opponent opened.
#[derive(Debug)]
pub struct LfgResponse {
    pub session_id: String,
    pub status: MatchStatus,
}

/// The model of [`LfgResponse`].
#[verifier::ext_equal]
pub struct LfgResponseModel {
    pub session_id: Seq<char>,
    pub status: MatchStatus,
}

impl View for LfgResponse {
    type V = LfgResponseModel;

    open spec fn view(&self) -> LfgResponseModel {
        LfgResponseModel {
            session_id: self.session_id@,
            status: self.status,
        }
    }
}

/// Where a session stands.
#[derive(Debug, Clone, Copy, PartialEq, Eq, Structural)]
pub enum MatchStatus {
    Queued,
    Matched,
    Cancelled,
}

/// Where a session stands and, once matched, with whom.
#[derive(Debug)]
pub struct MatchStatusResponse {
    pub status: MatchStatus,
    pub match_info: Option<MatchInfo>,
}

/// The model of [`MatchStatusResponse`].
#[verifier::ext_equal]
pub struct MatchStatusResponseModel {
    pub status: MatchStatus,
    pub match_info: Option<MatchInfoModel>,
}

impl View for MatchStatusResponse {
    type V = MatchStatusResponseModel;

    open spec fn view(&self) -> MatchStatusResponseModel {
        MatchStatusResponseModel {
            status: self.status,
            match_info: self.match_info.deep_view(),
        }
    }
}

/// What a player needs to meet the opponent.
#[derive(Debug)]
pub struct MatchInfo {
    pub role: PlayerRole,
    /// The opponent's STUN endpoint.
    pub peer_endpoint: String,
    /// When both sides start to punch, in milliseconds since the Unix epoch.
    pub punch_at_ms: i64,
    pub room_id: String,
    /// The opponent's name.
    pub username: String,
    /// Relay credentials, where a relay is configured.
    pub turn: Option<TurnCredentials>,
}

/// The model of [`MatchInfo`].
#[verifier::ext_equal]
pub struct MatchInfoModel {
    pub role: PlayerRole,
    pub peer_endpoint: Seq<char>,
    pub punch_at_ms: i64,
    pub room_id: Seq<char>,
    pub username: Seq<char>,
    pub turn: Option<TurnCredentialsModel>,
}

impl View for MatchInfo {
    type V = MatchInfoModel;

    open spec fn view(&self) -> MatchInfoModel {
        MatchInfoModel {
            role: self.role,
            peer_endpoint: self.peer_endpoint@,
            punch_at_ms: self.punch_at_ms,
            room_id: self.room_id@,
            username: self.username@,
            turn: self.turn.deep_view(),
        }
    }
}

impl DeepView for MatchInfo {
    type V = MatchInfoModel;

    open spec fn deep_view(&self) -> MatchInfoModel {
        self@
    }
}

impl Clone for MatchInfo {
    fn clone(&self) -> (copy: MatchInfo)
        ensures
            copy@ == self@,
    {
        let turn = match &self.turn {
            Some(inner) => Some(inner.clone()),
            None => None,
        };
        MatchInfo {
            role: self.role,
            peer_endpoint: self.peer_endpoint.clone(),
            punch_at_ms: self.punch_at_ms,
            room_id: self.room_id.clone(),
            username: self.username.clone(),
            turn,
        }
    }
}

/// How to authenticate to the relay.
#[derive(Debug)]
pub struct TurnCredentials {
    pub uri: String,
    pub username: String,
    pub password: String,
    pub ttl_secs: u64,
}

/// The model of [`TurnCredentials`].
#[verifier::ext_equal]
pub struct TurnCredentialsModel {
    pub uri: Seq<char>,
    pub username: Seq<char>,
    pub password: Seq<char>,
    pub ttl_secs: u64,
}

impl View for TurnCredentials {
    type V = TurnCredentialsModel;

    open spec fn view(&self) -> TurnCredentialsModel {
        TurnCredentialsModel {
            uri: self.uri@,
            username: self.username@,
            password: self.password@,
            ttl_secs: self.ttl_secs,
        }
    }
}

impl DeepView for TurnCredentials {
    type V = TurnCredentialsModel;

    open spec fn deep_view(&self) -> TurnCredentialsModel {
        self@
    }
}

impl Clone for TurnCredentials {
    fn clone(&self) -> (copy: TurnCredentials)
        ensures
            copy@ == self@,
    {
        TurnCredentials {
            uri: self.uri.clone(),
            username: self.username.clone(),
            password: self.password.clone(),
            ttl_secs: self.ttl_secs,
        }
    }
}

/// Host is player one in the game, Join is player two.
#[derive(Debug, Clone, Copy, PartialEq, Eq, Structural)]
pub enum PlayerRole {
    Host,
    Join,
}

/// A player's relayed address.
#[derive(Debug)]
pub struct TurnReadyRequest {
    /// "ip:port" of the relay allocation.
    pub relayed_addr: String,
}

/// The model of [`TurnReadyRequest`].
#[verifier::ext_equal]
pub struct TurnReadyRequestModel {
    pub relayed_addr: Seq<char>,
}

impl View for TurnReadyRequest {
    type V = TurnReadyRequestModel;

    open spec fn view(&self) -> TurnReadyRequestModel {
        TurnReadyRequestModel {
            relayed_addr: self.relayed_addr@,
        }
    }
}

/// The opponent's relayed address.
#[derive(Debug)]
pub struct PeerRelayResponse {
    /// Absent until the opponent has reported it.
    pub peer_relayed_addr: Option<String>,
}

/// The model of [`PeerRelayResponse`].
#[verifier::ext_equal]
pub struct PeerRelayResponseModel {
    pub peer_relayed_addr: Option<Seq<char>>,
}

impl View for PeerRelayResponse {
    type V = PeerRelayResponseModel;

    open spec fn view(&self) -> PeerRelayResponseModel {
        PeerRelayResponseModel {
            peer_relayed_addr: self.peer_relayed_addr.deep_view(),
        }
    }
}

/// What a player reports when a game ends.
#[derive(Debug)]
pub struct MatchResultRequest {
    pub session_id: String,
    /// Which game of the session's room this is.
    pub match_index: u32,
    pub p1_score: u16,
    pub p2_score: u16,
    /// Whether this game decided the set.
    pub set_over: bool,
}

/// The model of [`MatchResultRequest`].
#[verifier::ext_equal]
pub struct MatchResultRequestModel {
    pub session_id: Seq<char>,
    pub match_index: u32,
    pub p1_score: u16,
    pub p2_score: u16,
    pub set_over: bool,
}

impl View for MatchResultRequest {
    type V = MatchResultRequestModel;

    open spec fn view(&self) -> MatchResultRequestModel {
        MatchResultRequestModel {
            session_id: self.session_id@,
            match_index: self.match_index,
            p1_score: self.p1_score,
            p2_score: self.p2_score,
            set_over: self.set_over,
        }
    }
}

/// A player's session.
#[derive(Debug)]
pub struct QueueEntry {
    pub session_id: String,
    pub discord_id: String,
    pub username: String,
    pub stun_endpoint: String,
    pub app_version: String,
    pub rom_hash: String,
    pub queued_at: Timestamp,
    /// Set once the player is matched.
    pub match_info: Option<MatchInfo>,
    pub cancelled: bool,
    /// The player's relayed address, once reported.
    pub relayed_addr: Option<String>,
}

/// The model of [`QueueEntry`].
#[verifier::ext_equal]
pub struct QueueEntryModel {
    pub session_id: Seq<char>,
    pub discord_id: Seq<char>,
    pub username: Seq<char>,
    pub stun_endpoint: Seq<char>,
    pub app_version: Seq<char>,
    pub rom_hash: Seq<char>,
    pub queued_at: Timestamp,
    pub match_info: Option<MatchInfoModel>,
    pub cancelled: bool,
    pub relayed_addr: Option<Seq<char>>,
}

impl View for QueueEntry {
    type V = QueueEntryModel;

    open spec fn view(&self) -> QueueEntryModel {
        QueueEntryModel {
            session_id: self.session_id@,
            discord_id: self.discord_id@,
            username: self.username@,
            stun_endpoint: self.stun_endpoint@,
            app_version: self.app_version@,
            rom_hash: self.rom_hash@,
            queued_at: self.queued_at,
            match_info: self.match_info.deep_view(),
            cancelled: self.cancelled,
            relayed_addr: self.relayed_addr.deep_view(),
        }
    }
}

impl Clone for QueueEntry {
    fn clone(&self) -> (copy: QueueEntry)
        ensures
            copy@ == self@,
    {
        let match_info = match &self.match_info {
            Some(inner) => Some(inner.clone()),
            None => None,
        };
        QueueEntry {
            session_id: self.session_id.clone(),
            discord_id: self.discord_id.clone(),
            username: self.username.clone(),
            stun_endpoint: self.stun_endpoint.clone(),
            app_version: self.app_version.clone(),
            rom_hash: self.rom_hash.clone(),
            queued_at: self.queued_at,
            match_info,
            cancelled: self.cancelled,
            relayed_addr: copy_opt_text(&self.relayed_addr),
        }
    }
}

// Spar rooms

/// How many wins decide a set.
#[derive(Debug, Clone, Copy, PartialEq, Eq, Structural)]
pub enum LobbyMatchFormat {
    Ft3,
    Ft5,
    Ft10,
}

/// A player's open invitation to spar.
#[derive(Debug)]
pub struct SparRoom {
    pub room_id: String,
    pub creator_discord_id: String,
    pub creator_username: String,
    pub created_at: Timestamp,
    pub name: String,
    pub format: LobbyMatchFormat,
    /// Private rooms are not listed.
    pub private: bool,
    pub app_version: String,
    pub rom_hash: String,
}

/// The model of [`SparRoom`].
#[verifier::ext_equal]
pub struct SparRoomModel {
    pub room_id: Seq<char>,
    pub creator_discord_id: Seq<char>,
    pub creator_username: Seq<char>,
    pub created_at: Timestamp,
    pub name: Seq<char>,
    pub format: LobbyMatchFormat,
    pub private: bool,
    pub app_version: Seq<char>,
    pub rom_hash: Seq<char>,
}

impl View for SparRoom {
    type V = SparRoomModel;

    open spec fn view(&self) -> SparRoomModel {
        SparRoomModel {
            room_id: self.room_id@,
            creator_discord_id: self.creator_discord_id@,
            creator_username: self.creator_username@,
            created_at: self.created_at,
            name: self.name@,
            format: self.format,
            private: self.private,
            app_version: self.app_version@,
            rom_hash: self.rom_hash@,
        }
    }
}

impl Clone for SparRoom {
    fn clone(&self) -> (copy: SparRoom)
        ensures
            copy@ == self@,
    {
        SparRoom {
            room_id: self.room_id.clone(),
            creator_discord_id: self.creator_discord_id.clone(),
            creator_username: self.creator_username.clone(),
            created_at: self.created_at,
            name: self.name.clone(),
            format: self.format,
            private: self.private,
            app_version: self.app_version.clone(),
            rom_hash: self.rom_hash.clone(),
        }
    }
}

/// A request to open a spar room.
#[derive(Debug)]
pub struct CreateRoomRequest {
    /// "ip:port" of the caller, as a STUN server sees it.
    pub stun_endpoint: String,
    pub app_version: String,
    /// Hex fingerprint of the caller's game image.
    pub rom_hash: String,
    pub name: Option<String>,
    pub format: LobbyMatchFormat,
    pub private: bool,
}

/// The model of [`CreateRoomRequest`].
#[verifier::ext_equal]
pub struct CreateRoomRequestModel {
    pub stun_endpoint: Seq<char>,
    pub app_version: Seq<char>,
    pub rom_hash: Seq<char>,
    pub name: Option<Seq<char>>,
    pub format: LobbyMatchFormat,
    pub private: bool,
}

impl View for CreateRoomRequest {
    type V = CreateRoomRequestModel;

    open spec fn view(&self) -> CreateRoomRequestModel {
        CreateRoomRequestModel {
            stun_endpoint: self.stun_endpoint@,
            app_version: self.app_version@,
            rom_hash: self.rom_hash@,
            name: self.name.deep_view(),
            format: self.format,
            private: self.private,
        }
    }
}

/// An opened spar room.
#[derive(Debug)]
pub struct CreateRoomResponse {
    pub room_id: String,
    /// The session that the creator polls.
    pub creator_session_id: String,
}

/// The model of [`CreateRoomResponse`].
#[verifier::ext_equal]
pub struct CreateRoomResponseModel {
    pub room_id: Seq<char>,
    pub creator_session_id: Seq<char>,
}

impl View for CreateRoomResponse {
    type V = CreateRoomResponseModel;

    open spec fn view(&self) -> CreateRoomResponseModel {
        CreateRoomResponseModel {
            room_id: self.room_id@,
            creator_session_id: self.creator_session_id@,
        }
    }
}

/// A request to join a spar room.
#[derive(Debug)]
pub struct JoinRoomRequest {
    /// "ip:port" of the caller, as a STUN server sees it.
    pub stun_endpoint: String,
    pub app_version: String,
    /// Hex fingerprint of the caller's game image.
    pub rom_hash: String,
}

/// The model of [`JoinRoomRequest`].
#[verifier::ext_equal]
pub struct JoinRoomRequestModel {
    pub stun_endpoint: Seq<char>,
    pub app_version: Seq<char>,
    pub rom_hash: Seq<char>,
}

impl View for JoinRoomRequest {
    type V = JoinRoomRequestModel;

    open spec fn view(&self) -> JoinRoomRequestModel {
        JoinRoomRequestModel {
            stun_endpoint: self.stun_endpoint@,
            app_version: self.app_version@,
            rom_hash: self.rom_hash@,
        }
    }
}

/// The match that joining a room or accepting a challenge made.
#[derive(Debug)]
pub struct JoinRoomResponse {
    pub session_id: String,
    pub match_info: MatchInfo,
}

/// The model of [`JoinRoomResponse`].
#[verifier::ext_equal]
pub struct JoinRoomResponseModel {
    pub session_id: Seq<char>,
    pub match_info: MatchInfoModel,
}

impl View for JoinRoomResponse {
    type V = JoinRoomResponseModel;

    open spec fn view(&self) -> JoinRoomResponseModel {
        JoinRoomResponseModel {
            session_id: self.session_id@,
            match_info: self.match_info@,
        }
    }
}

/// A room or lobby as a listing shows it.
#[derive(Debug)]
pub struct LobbyRoomSummary {
    pub id: String,
    pub name: String,
    pub host_username: String,
    pub format: LobbyMatchFormat,
    pub players: u8,
    pub private: bool,
    pub status: String,
}

/// The model of [`LobbyRoomSummary`].
#[verifier::ext_equal]
pub struct LobbyRoomSummaryModel {
    pub id: Seq<char>,
    pub name: Seq<char>,
    pub host_username: Seq<char>,
    pub format: LobbyMatchFormat,
    pub players: u8,
    pub private: bool,
    pub status: Seq<char>,
}

impl View for LobbyRoomSummary {
    type V = LobbyRoomSummaryModel;

    open spec fn view(&self) -> LobbyRoomSummaryModel {
        LobbyRoomSummaryModel {
            id: self.id@,
            name: self.name@,
            host_username: self.host_username@,
            format: self.format,
            players: self.players,
            private: self.private,
            status: self.status@,
        }
    }
}

impl DeepView for LobbyRoomSummary {
    type V = LobbyRoomSummaryModel;

    open spec fn deep_view(&self) -> LobbyRoomSummaryModel {
        self@
    }
}

/// A listing of rooms or lobbies.
#[derive(Debug)]
pub struct LobbyListResponse {
    pub lobbies: Vec<LobbyRoomSummary>,
}

/// The model of [`LobbyListResponse`].
#[verifier::ext_equal]
pub struct LobbyListResponseModel {
    pub lobbies: Seq<LobbyRoomSummaryModel>,
}

impl View for LobbyListResponse {
    type V = LobbyListResponseModel;

    open spec fn view(&self) -> LobbyListResponseModel {
        LobbyListResponseModel {
            lobbies: self.lobbies.deep_view(),
        }
    }
}

// General lobby

/// A player's heartbeat in the general lobby.
#[derive(Debug)]
pub struct LobbyPresence {
    pub player_id: String,
    pub username: String,
    pub status: String,
    pub last_seen: Timestamp,
}

/// The model of [`LobbyPresence`].
#[verifier::ext_equal]
pub struct LobbyPresenceModel {
    pub player_id: Seq<char>,
    pub username: Seq<char>,
    pub status: Seq<char>,
    pub last_seen: Timestamp,
}

impl View for LobbyPresence {
    type V = LobbyPresenceModel;

    open spec fn view(&self) -> LobbyPresenceModel {
        LobbyPresenceModel {
            player_id: self.player_id@,
            username: self.username@,
            status: self.status@,
            last_seen: self.last_seen,
        }
    }
}

impl Clone for LobbyPresence {
    fn clone(&self) -> (copy: LobbyPresence)
        ensures
            copy@ == self@,
    {
        LobbyPresence {
            player_id: self.player_id.clone(),
            username: self.username.clone(),
            status: self.status.clone(),
            last_seen: self.last_seen,
        }
    }
}

/// A chat message, as it is kept.
#[derive(Debug)]
pub struct LobbyChatEntry {
    pub message_id: String,
    pub player_id: String,
    pub username: String,
    pub message: String,
    pub created_at: Timestamp,
}

/// The model of [`LobbyChatEntry`].
#[verifier::ext_equal]
pub struct LobbyChatEntryModel {
    pub message_id: Seq<char>,
    pub player_id: Seq<char>,
    pub username: Seq<char>,
    pub message: Seq<char>,
    pub created_at: Timestamp,
}

impl View for LobbyChatEntry {
    type V = LobbyChatEntryModel;

    open spec fn view(&self) -> LobbyChatEntryModel {
        LobbyChatEntryModel {
            message_id: self.message_id@,
            player_id: self.player_id@,
            username: self.username@,
            message: self.message@,
            created_at: self.created_at,
        }
    }
}

impl Clone for LobbyChatEntry {
    fn clone(&self) -> (copy: LobbyChatEntry)
        ensures
            copy@ == self@,
    {
        LobbyChatEntry {
            message_id: self.message_id.clone(),
            player_id: self.player_id.clone(),
            username: self.username.clone(),
            message: self.message.clone(),
            created_at: self.created_at,
        }
    }
}

/// A chat message, as it is sent.
#[derive(Debug)]
pub struct LobbyChatRequest {
    pub message: String,
}

/// The model of [`LobbyChatRequest`].
#[verifier::ext_equal]
pub struct LobbyChatRequestModel {
    pub message: Seq<char>,
}

impl View for LobbyChatRequest {
    type V = LobbyChatRequestModel;

    open spec fn view(&self) -> LobbyChatRequestModel {
        LobbyChatRequestModel {
            message: self.message@,
        }
    }
}

/// A player as the general lobby shows them.
#[derive(Debug)]
pub struct LobbyUser {
    pub player_id: String,
    pub username: String,
    pub status: String,
    pub rating: Option<i32>,
}

/// The model of [`LobbyUser`].
#[verifier::ext_equal]
pub struct LobbyUserModel {
    pub player_id: Seq<char>,
    pub username: Seq<char>,
    pub status: Seq<char>,
    pub rating: Option<i32>,
}

impl View for LobbyUser {
    type V = LobbyUserModel;

    open spec fn view(&self) -> LobbyUserModel {
        LobbyUserModel {
            player_id: self.player_id@,
            username: self.username@,
            status: self.status@,
            rating: self.rating,
        }
    }
}

impl DeepView for LobbyUser {
    type V = LobbyUserModel;

    open spec fn deep_view(&self) -> LobbyUserModel {
        self@
    }
}

/// A chat message as the general lobby shows it.
#[derive(Debug)]
pub struct LobbyChatMessage {
    pub username: String,
    pub message: String,
    /// RFC 3339, in UTC.
    pub timestamp: String,
}

/// The model of [`LobbyChatMessage`].
#[verifier::ext_equal]
pub struct LobbyChatMessageModel {
    pub username: Seq<char>,
    pub message: Seq<char>,
    pub timestamp: Seq<char>,
}

impl View for LobbyChatMessage {
    type V = LobbyChatMessageModel;

    open spec fn view(&self) -> LobbyChatMessageModel {
        LobbyChatMessageModel {
            username: self.username@,
            message: self.message@,
            timestamp: self.timestamp@,
        }
    }
}

impl DeepView for LobbyChatMessage {
    type V = LobbyChatMessageModel;

    open spec fn deep_view(&self) -> LobbyChatMessageModel {
        self@
    }
}

/// The general lobby.
#[derive(Debug)]
pub struct GeneralLobbyResponse {
    pub status: String,
    pub users: Vec<LobbyUser>,
    pub chat: Vec<LobbyChatMessage>,
}

/// The model of [`GeneralLobbyResponse`].
#[verifier::ext_equal]
pub struct GeneralLobbyResponseModel {
    pub status: Seq<char>,
    pub users: Seq<LobbyUserModel>,
    pub chat: Seq<LobbyChatMessageModel>,
}

impl View for GeneralLobbyResponse {
    type V = GeneralLobbyResponseModel;

    open spec fn view(&self) -> GeneralLobbyResponseModel {
        GeneralLobbyResponseModel {
            status: self.status@,
            users: self.users.deep_view(),
            chat: self.chat.deep_view(),
        }
    }
}

/// A player's rating, as the stats service gave it.
#[derive(Debug)]
pub struct CachedRating {
    pub rating: i32,
    pub fetched_at: Timestamp,
}

/// The model of [`CachedRating`].
#[verifier::ext_equal]
pub struct CachedRatingModel {
    pub rating: i32,
    pub fetched_at: Timestamp,
}

impl View for CachedRating {
    type V = CachedRatingModel;

    open spec fn view(&self) -> CachedRatingModel {
        CachedRatingModel {
            rating: self.rating,
            fetched_at: self.fetched_at,
        }
    }
}

impl Clone for CachedRating {
    fn clone(&self) -> (copy: CachedRating)
        ensures
            copy@ == self@,
    {
        CachedRating {
            rating: self.rating,
            fetched_at: self.fetched_at,
        }
    }
}

// Challenges

/// A challenge that waits for its target.
#[derive(Debug)]
pub struct Challenge {
    pub challenge_id: String,
    pub challenger_session_id: String,
    pub challenger_discord_id: String,
    pub challenger_username: String,
    pub target_discord_id: String,
    pub target_username: String,
    pub format: LobbyMatchFormat,
    pub stun_endpoint: String,
    pub app_version: String,
    pub rom_hash: String,
    pub created_at: Timestamp,
}

/// The model of [`Challenge`].
#[verifier::ext_equal]
pub struct ChallengeModel {
    pub challenge_id: Seq<char>,
    pub challenger_session_id: Seq<char>,
    pub challenger_discord_id: Seq<char>,
    pub challenger_username: Seq<char>,
    pub target_discord_id: Seq<char>,
    pub target_username: Seq<char>,
    pub format: LobbyMatchFormat,
    pub stun_endpoint: Seq<char>,
    pub app_version: Seq<char>,
    pub rom_hash: Seq<char>,
    pub created_at: Timestamp,
}

impl View for Challenge {
    type V = ChallengeModel;

    open spec fn view(&self) -> ChallengeModel {
        ChallengeModel {
            challenge_id: self.challenge_id@,
            challenger_session_id: self.challenger_session_id@,
            challenger_discord_id: self.challenger_discord_id@,
            challenger_username: self.challenger_username@,
            target_discord_id: self.target_discord_id@,
            target_username: self.target_username@,
            format: self.format,
            stun_endpoint: self.stun_endpoint@,
            app_version: self.app_version@,
            rom_hash: self.rom_hash@,
            created_at: self.created_at,
        }
    }
}

impl Clone for Challenge {
    fn clone(&self) -> (copy: Challenge)
        ensures
            copy@ == self@,
    {
        Challenge {
            challenge_id: self.challenge_id.clone(),
            challenger_session_id: self.challenger_session_id.clone(),
            challenger_discord_id: self.challenger_discord_id.clone(),
            challenger_username: self.challenger_username.clone(),
            target_discord_id: self.target_discord_id.clone(),
            target_username: self.target_username.clone(),
            format: self.format,
            stun_endpoint: self.stun_endpoint.clone(),
            app_version: self.app_version.clone(),
            rom_hash: self.rom_hash.clone(),
            created_at: self.created_at,
        }
    }
}

/// A request to challenge a player in the general lobby.
#[derive(Debug)]
pub struct ChallengeRequest {
    pub target_id: String,
    /// "ip:port" of the caller, as a STUN server sees it.
    pub stun_endpoint: String,
    pub app_version: String,
    /// Hex fingerprint of the caller's game image.
    pub rom_hash: String,
    pub format: LobbyMatchFormat,
}

/// The model of [`ChallengeRequest`].
#[verifier::ext_equal]
pub struct ChallengeRequestModel {
    pub target_id: Seq<char>,
    pub stun_endpoint: Seq<char>,
    pub app_version: Seq<char>,
    pub rom_hash: Seq<char>,
    pub format: LobbyMatchFormat,
}

impl View for ChallengeRequest {
    type V = ChallengeRequestModel;

    open spec fn view(&self) -> ChallengeRequestModel {
        ChallengeRequestModel {
            target_id: self.target_id@,
            stun_endpoint: self.stun_endpoint@,
            app_version: self.app_version@,
            rom_hash: self.rom_hash@,
            format: self.format,
        }
    }
}

/// A challenge that was sent.
#[derive(Debug)]
pub struct ChallengeResponse {
    pub challenge_id: String,
    pub challenger_session_id: String,
    pub status: String,
}

/// The model of [`ChallengeResponse`].
#[verifier::ext_equal]
pub struct ChallengeResponseModel {
    pub challenge_id: Seq<char>,
    pub challenger_session_id: Seq<char>,
    pub status: Seq<char>,
}

impl View for ChallengeResponse {
    type V = ChallengeResponseModel;

    open spec fn view(&self) -> ChallengeResponseModel {
        ChallengeResponseModel {
            challenge_id: self.challenge_id@,
            challenger_session_id: self.challenger_session_id@,
            status: self.status@,
        }
    }
}

/// A request to accept a challenge.
#[derive(Debug)]
pub struct AcceptChallengeRequest {
    /// "ip:port" of the caller, as a STUN server sees it.
    pub stun_endpoint: String,
    pub app_version: String,
    /// Hex fingerprint of the caller's game image.
    pub rom_hash: String,
}

/// The model of [`AcceptChallengeRequest`].
#[verifier::ext_equal]
pub struct AcceptChallengeRequestModel {
    pub stun_endpoint: Seq<char>,
    pub app_version: Seq<char>,
    pub rom_hash: Seq<char>,
}

impl View for AcceptChallengeRequest {
    type V = AcceptChallengeRequestModel;

    open spec fn view(&self) -> AcceptChallengeRequestModel {
        AcceptChallengeRequestModel {
            stun_endpoint: self.stun_endpoint@,
            app_version: self.app_version@,
            rom_hash: self.rom_hash@,
        }
    }
}

/// A challenge as one of its two players sees it.
#[derive(Debug)]
pub struct ChallengeSummary {
    pub challenge_id: String,
    /// "incoming" or "outgoing".
    pub direction: String,
    pub challenger_id: String,
    pub challenger_username: String,
    pub target_id: String,
    pub target_username: String,
    pub format: LobbyMatchFormat,
    /// RFC 3339, in UTC.
    pub created_at: String,
}

/// The model of [`ChallengeSummary`].
#[verifier::ext_equal]
pub struct ChallengeSummaryModel {
    pub challenge_id: Seq<char>,
    pub direction: Seq<char>,
    pub challenger_id: Seq<char>,
    pub challenger_username: Seq<char>,
    pub target_id: Seq<char>,
    pub target_username: Seq<char>,
    pub format: LobbyMatchFormat,
    pub created_at: Seq<char>,
}

impl View for ChallengeSummary {
    type V = ChallengeSummaryModel;

    open spec fn view(&self) -> ChallengeSummaryModel {
        ChallengeSummaryModel {
            challenge_id: self.challenge_id@,
            direction: self.direction@,
            challenger_id: self.challenger_id@,
            challenger_username: self.challenger_username@,
            target_id: self.target_id@,
            target_username: self.target_username@,
            format: self.format,
            created_at: self.created_at@,
        }
    }
}

impl DeepView for ChallengeSummary {
    type V = ChallengeSummaryModel;

    open spec fn deep_view(&self) -> ChallengeSummaryModel {
        self@
    }
}

/// A player's challenges.
#[derive(Debug)]
pub struct ChallengeListResponse {
    pub challenges: Vec<ChallengeSummary>,
}

/// The model of [`ChallengeListResponse`].
#[verifier::ext_equal]
pub struct ChallengeListResponseModel {
    pub challenges: Seq<ChallengeSummaryModel>,
}

impl View for ChallengeListResponse {
    type V = ChallengeListResponseModel;

    open spec fn view(&self) -> ChallengeListResponseModel {
        ChallengeListResponseModel {
            challenges: self.challenges.deep_view(),
        }
    }
}

// King-of-the-hill lobbies

/// Whether a member of a lobby plays or watches.
#[derive(Debug, Clone, Copy, PartialEq, Eq, Structural)]
pub enum LobbyRole {
    Queued,
    Spectating,
}

/// A member of a lobby.
#[derive(Debug)]
pub struct LobbyMember {
    pub player_id: String,
    pub username: String,
    pub stun_endpoint: String,
    pub role: LobbyRole,
    pub last_seen: Timestamp,
}

/// The model of [`LobbyMember`].
#[verifier::ext_equal]
pub struct LobbyMemberModel {
    pub player_id: Seq<char>,
    pub username: Seq<char>,
    pub stun_endpoint: Seq<char>,
    pub role: LobbyRole,
    pub last_seen: Timestamp,
}

impl View for LobbyMember {
    type V = LobbyMemberModel;

    open spec fn view(&self) -> LobbyMemberModel {
        LobbyMemberModel {
            player_id: self.player_id@,
            username: self.username@,
            stun_endpoint: self.stun_endpoint@,
            role: self.role,
            last_seen: self.last_seen,
        }
    }
}

impl DeepView for LobbyMember {
    type V = LobbyMemberModel;

    open spec fn deep_view(&self) -> LobbyMemberModel {
        self@
    }
}

impl Clone for LobbyMember {
    fn clone(&self) -> (copy: LobbyMember)
        ensures
            copy@ == self@,
    {
        LobbyMember {
            player_id: self.player_id.clone(),
            username: self.username.clone(),
            stun_endpoint: self.stun_endpoint.clone(),
            role: self.role,
            last_seen: self.last_seen,
        }
    }
}

/// A ready check: the champion is ready, the challenger must confirm.
#[derive(Debug)]
pub struct PendingMatch {
    pub champion: String,
    pub challenger: String,
    pub deadline: Timestamp,
}

/// The model of [`PendingMatch`].
#[verifier::ext_equal]
pub struct PendingMatchModel {
    pub champion: Seq<char>,
    pub challenger: Seq<char>,
    pub deadline: Timestamp,
}

impl View for PendingMatch {
    type V = PendingMatchModel;

    open spec fn view(&self) -> PendingMatchModel {
        PendingMatchModel {
            champion: self.champion@,
            challenger: self.challenger@,
            deadline: self.deadline,
        }
    }
}

impl DeepView for PendingMatch {
    type V = PendingMatchModel;

    open spec fn deep_view(&self) -> PendingMatchModel {
        self@
    }
}

impl Clone for PendingMatch {
    fn clone(&self) -> (copy: PendingMatch)
        ensures
            copy@ == self@,
    {
        PendingMatch {
            champion: self.champion.clone(),
            challenger: self.challenger.clone(),
            deadline: self.deadline,
        }
    }
}

/// The match that a lobby is playing.
#[derive(Debug)]
pub struct ActiveMatch {
    pub host: String,
    pub join: String,
    pub room_id: String,
    pub host_session: String,
    pub join_session: String,
    pub started_at: Timestamp,
}

/// The model of [`ActiveMatch`].
#[verifier::ext_equal]
pub struct ActiveMatchModel {
    pub host: Seq<char>,
    pub join: Seq<char>,
    pub room_id: Seq<char>,
    pub host_session: Seq<char>,
    pub join_session: Seq<char>,
    pub started_at: Timestamp,
}

impl View for ActiveMatch {
    type V = ActiveMatchModel;

    open spec fn view(&self) -> ActiveMatchModel {
        ActiveMatchModel {
            host: self.host@,
            join: self.join@,
            room_id: self.room_id@,
            host_session: self.host_session@,
            join_session: self.join_session@,
            started_at: self.started_at,
        }
    }
}

impl DeepView for ActiveMatch {
    type V = ActiveMatchModel;

    open spec fn deep_view(&self) -> ActiveMatchModel {
        self@
    }
}

impl Clone for ActiveMatch {
    fn clone(&self) -> (copy: ActiveMatch)
        ensures
            copy@ == self@,
    {
        ActiveMatch {
            host: self.host.clone(),
            join: self.join.clone(),
            room_id: self.room_id.clone(),
            host_session: self.host_session.clone(),
            join_session: self.join_session.clone(),
            started_at: self.started_at,
        }
    }
}

/// A lobby in which the winner stays on the hill.
#[derive(Debug)]
pub struct KohLobby {
    pub id: String,
    pub name: String,
    pub ranked: bool,
    /// Private lobbies are not listed.
    pub private: bool,
    pub format: LobbyMatchFormat,
    pub host_id: String,
    pub app_version: String,
    pub rom_hash: String,
    pub created_at: Timestamp,
    pub last_activity: Timestamp,
    pub members: Vec<LobbyMember>,
    /// The ids of the members who wait to play, the next one first.
    pub queue: VecDeque<String>,
    pub pending: Option<PendingMatch>,
    pub current: Option<ActiveMatch>,
}

/// The model of [`KohLobby`].
#[verifier::ext_equal]
pub struct KohLobbyModel {
    pub id: Seq<char>,
    pub name: Seq<char>,
    pub ranked: bool,
    pub private: bool,
    pub format: LobbyMatchFormat,
    pub host_id: Seq<char>,
    pub app_version: Seq<char>,
    pub rom_hash: Seq<char>,
    pub created_at: Timestamp,
    pub last_activity: Timestamp,
    pub members: Seq<LobbyMemberModel>,
    pub queue: Seq<Seq<char>>,
    pub pending: Option<PendingMatchModel>,
    pub current: Option<ActiveMatchModel>,
}

impl View for KohLobby {
    type V = KohLobbyModel;

    open spec fn view(&self) -> KohLobbyModel {
        KohLobbyModel {
            id: self.id@,
            name: self.name@,
            ranked: self.ranked,
            private: self.private,
            format: self.format,
            host_id: self.host_id@,
            app_version: self.app_version@,
            rom_hash: self.rom_hash@,
            created_at: self.created_at,
            last_activity: self.last_activity,
            members: self.members.deep_view(),
            queue: self.queue.deep_view(),
            pending: self.pending.deep_view(),
            current: self.current.deep_view(),
        }
    }
}

impl Clone for KohLobby {
    fn clone(&self) -> (copy: KohLobby)
        ensures
            copy@ == self@,
    {
        let pending = match &self.pending {
            Some(inner) => Some(inner.clone()),
            None => None,
        };
        let current = match &self.current {
            Some(inner) => Some(inner.clone()),
            None => None,
        };
        KohLobby {
            id: self.id.clone(),
            name: self.name.clone(),
            ranked: self.ranked,
            private: self.private,
            format: self.format,
            host_id: self.host_id.clone(),
            app_version: self.app_version.clone(),
            rom_hash: self.rom_hash.clone(),
            created_at: self.created_at,
            last_activity: self.last_activity,
            members: copy_lobby_members(&self.members),
            queue: copy_line(&self.queue),
            pending,
            current,
        }
    }
}

/// A request to open a lobby.
#[derive(Debug)]
pub struct CreateLobbyRequest {
    pub name: String,
    pub ranked: bool,
    pub private: bool,
    pub format: LobbyMatchFormat,
    /// "ip:port" of the caller, as a STUN server sees it.
    pub stun_endpoint: String,
    pub app_version: String,
    /// Hex fingerprint of the caller's game image.
    pub rom_hash: String,
}

/// The model of [`CreateLobbyRequest`].
#[verifier::ext_equal]
pub struct CreateLobbyRequestModel {
    pub name: Seq<char>,
    pub ranked: bool,
    pub private: bool,
    pub format: LobbyMatchFormat,
    pub stun_endpoint: Seq<char>,
    pub app_version: Seq<char>,
    pub rom_hash: Seq<char>,
}

impl View for CreateLobbyRequest {
    type V = CreateLobbyRequestModel;

    open spec fn view(&self) -> CreateLobbyRequestModel {
        CreateLobbyRequestModel {
            name: self.name@,
            ranked: self.ranked,
            private: self.private,
            format: self.format,
            stun_endpoint: self.stun_endpoint@,
            app_version: self.app_version@,
            rom_hash: self.rom_hash@,
        }
    }
}

/// An opened lobby.
#[derive(Debug)]
pub struct CreateLobbyResponse {
    pub lobby_id: String,
}

/// The model of [`CreateLobbyResponse`].
#[verifier::ext_equal]
pub struct CreateLobbyResponseModel {
    pub lobby_id: Seq<char>,
}

impl View for CreateLobbyResponse {
    type V = CreateLobbyResponseModel;

    open spec fn view(&self) -> CreateLobbyResponseModel {
        CreateLobbyResponseModel {
            lobby_id: self.lobby_id@,
        }
    }
}

/// A request to join a lobby.
#[derive(Debug)]
pub struct JoinLobbyRequest {
    /// "ip:port" of the caller, as a STUN server sees it.
    pub stun_endpoint: String,
    pub app_version: String,
    /// Hex fingerprint of the caller's game image.
    pub rom_hash: String,
    pub spectate: bool,
}

/// The model of [`JoinLobbyRequest`].
#[verifier::ext_equal]
pub struct JoinLobbyRequestModel {
    pub stun_endpoint: Seq<char>,
    pub app_version: Seq<char>,
    pub rom_hash: Seq<char>,
    pub spectate: bool,
}

impl View for JoinLobbyRequest {
    type V = JoinLobbyRequestModel;

    open spec fn view(&self) -> JoinLobbyRequestModel {
        JoinLobbyRequestModel {
            stun_endpoint: self.stun_endpoint@,
            app_version: self.app_version@,
            rom_hash: self.rom_hash@,
            spectate: self.spectate,
        }
    }
}

/// A member of a lobby, as the lobby shows them.
#[derive(Debug)]
pub struct LobbyMemberView {
    pub player_id: String,
    pub username: String,
    pub rating: Option<i32>,
    pub role: LobbyRole,
    pub in_match: bool,
}

/// The model of [`LobbyMemberView`].
#[verifier::ext_equal]
pub struct LobbyMemberViewModel {
    pub player_id: Seq<char>,
    pub username: Seq<char>,
    pub rating: Option<i32>,
    pub role: LobbyRole,
    pub in_match: bool,
}

impl View for LobbyMemberView {
    type V = LobbyMemberViewModel;

    open spec fn view(&self) -> LobbyMemberViewModel {
        LobbyMemberViewModel {
            player_id: self.player_id@,
            username: self.username@,
            rating: self.rating,
            role: self.role,
            in_match: self.in_match,
        }
    }
}

impl DeepView for LobbyMemberView {
    type V = LobbyMemberViewModel;

    open spec fn deep_view(&self) -> LobbyMemberViewModel {
        self@
    }
}

/// The match that a lobby is playing, as the lobby shows it.
#[derive(Debug)]
pub struct CurrentMatchView {
    pub host_username: String,
    pub join_username: String,
    pub host_session: String,
    pub join_session: String,
}

/// The model of [`CurrentMatchView`].
#[verifier::ext_equal]
pub struct CurrentMatchViewModel {
    pub host_username: Seq<char>,
    pub join_username: Seq<char>,
    pub host_session: Seq<char>,
    pub join_session: Seq<char>,
}

impl View for CurrentMatchView {
    type V = CurrentMatchViewModel;

    open spec fn view(&self) -> CurrentMatchViewModel {
        CurrentMatchViewModel {
            host_username: self.host_username@,
            join_username: self.join_username@,
            host_session: self.host_session@,
            join_session: self.join_session@,
        }
    }
}

impl DeepView for CurrentMatchView {
    type V = CurrentMatchViewModel;

    open spec fn deep_view(&self) -> CurrentMatchViewModel {
        self@
    }
}

/// A ready check, as the lobby shows it.
#[derive(Debug)]
pub struct ReadyCheckView {
    pub champion_username: String,
    pub challenger_username: String,
    pub seconds_left: i64,
    pub you_are_challenger: bool,
}

/// The model of [`ReadyCheckView`].
#[verifier::ext_equal]
pub struct ReadyCheckViewModel {
    pub champion_username: Seq<char>,
    pub challenger_username: Seq<char>,
    pub seconds_left: i64,
    pub you_are_challenger: bool,
}

impl View for ReadyCheckView {
    type V = ReadyCheckViewModel;

    open spec fn view(&self) -> ReadyCheckViewModel {
        ReadyCheckViewModel {
            champion_username: self.champion_username@,
            challenger_username: self.challenger_username@,
            seconds_left: self.seconds_left,
            you_are_challenger: self.you_are_challenger,
        }
    }
}

impl DeepView for ReadyCheckView {
    type V = ReadyCheckViewModel;

    open spec fn deep_view(&self) -> ReadyCheckViewModel {
        self@
    }
}

/// A lobby, as one player sees it.
#[derive(Debug)]
pub struct LobbyStateResponse {
    pub id: String,
    pub name: String,
    pub ranked: bool,
    pub private: bool,
    pub format: LobbyMatchFormat,
    pub members: Vec<LobbyMemberView>,
    /// The names of the members who wait to play.
    pub queue: Vec<String>,
    pub current: Option<CurrentMatchView>,
    pub ready_check: Option<ReadyCheckView>,
    /// The caller's place in the queue.
    pub your_position: Option<usize>,
    pub your_role: Option<LobbyRole>,
    pub your_match: Option<MatchInfo>,
    pub your_session: Option<String>,
}

/// The model of [`LobbyStateResponse`].
#[verifier::ext_equal]
pub struct LobbyStateResponseModel {
    pub id: Seq<char>,
    pub name: Seq<char>,
    pub ranked: bool,
    pub private: bool,
    pub format: LobbyMatchFormat,
    pub members: Seq<LobbyMemberViewModel>,
    pub queue: Seq<Seq<char>>,
    pub current: Option<CurrentMatchViewModel>,
    pub ready_check: Option<ReadyCheckViewModel>,
    pub your_position: Option<usize>,
    pub your_role: Option<LobbyRole>,
    pub your_match: Option<MatchInfoModel>,
    pub your_session: Option<Seq<char>>,
}

impl View for LobbyStateResponse {
    type V = LobbyStateResponseModel;

    open spec fn view(&self) -> LobbyStateResponseModel {
        LobbyStateResponseModel {
            id: self.id@,
            name: self.name@,
            ranked: self.ranked,
            private: self.private,
            format: self.format,
            members: self.members.deep_view(),
            queue: self.queue.deep_view(),
            current: self.current.deep_view(),
            ready_check: self.ready_check.deep_view(),
            your_position: self.your_position,
            your_role: self.your_role,
            your_match: self.your_match.deep_view(),
            your_session: self.your_session.deep_view(),
        }
    }
}

/// The latest screenshot of a lobby's match.
#[derive(Debug)]
pub struct LobbyThumb {
    pub bytes: Vec<u8>,
    pub pushed_at: Timestamp,
}

/// The model of [`LobbyThumb`].
#[verifier::ext_equal]
pub struct LobbyThumbModel {
    pub bytes: Seq<u8>,
    pub pushed_at: Timestamp,
}

impl View for LobbyThumb {
    type V = LobbyThumbModel;

    open spec fn view(&self) -> LobbyThumbModel {
        LobbyThumbModel {
            bytes: self.bytes@,
            pushed_at: self.pushed_at,
        }
    }
}

impl Clone for LobbyThumb {
    fn clone(&self) -> (copy: LobbyThumb)
        ensures
            copy@ == self@,
    {
        LobbyThumb {
            bytes: copy_bytes(&self.bytes),
            pushed_at: self.pushed_at,
        }
    }
}

// Spectators

/// A frame that a player pushes for spectators.
#[derive(Debug)]
pub struct SpectatorPushRequest {
    pub savestate: String,
    pub inputs: String,
    pub frame: u32,
    pub score_p1: u16,
    pub score_p2: u16,
}

/// The model of [`SpectatorPushRequest`].
#[verifier::ext_equal]
pub struct SpectatorPushRequestModel {
    pub savestate: Seq<char>,
    pub inputs: Seq<char>,
    pub frame: u32,
    pub score_p1: u16,
    pub score_p2: u16,
}

impl View for SpectatorPushRequest {
    type V = SpectatorPushRequestModel;

    open spec fn view(&self) -> SpectatorPushRequestModel {
        SpectatorPushRequestModel {
            savestate: self.savestate@,
            inputs: self.inputs@,
            frame: self.frame,
            score_p1: self.score_p1,
            score_p2: self.score_p2,
        }
    }
}

/// The latest frame of a session, as it is kept.
#[derive(Debug)]
pub struct SpectatorFrame {
    pub savestate: String,
    pub inputs: String,
    pub frame: u32,
    pub score_p1: u16,
    pub score_p2: u16,
    pub p1_username: String,
    pub p2_username: String,
    pub updated_at: Timestamp,
}

/// The model of [`SpectatorFrame`].
#[verifier::ext_equal]
pub struct SpectatorFrameModel {
    pub savestate: Seq<char>,
    pub inputs: Seq<char>,
    pub frame: u32,
    pub score_p1: u16,
    pub score_p2: u16,
    pub p1_username: Seq<char>,
    pub p2_username: Seq<char>,
    pub updated_at: Timestamp,
}

impl View for SpectatorFrame {
    type V = SpectatorFrameModel;

    open spec fn view(&self) -> SpectatorFrameModel {
        SpectatorFrameModel {
            savestate: self.savestate@,
            inputs: self.inputs@,
            frame: self.frame,
            score_p1: self.score_p1,
            score_p2: self.score_p2,
            p1_username: self.p1_username@,
            p2_username: self.p2_username@,
            updated_at: self.updated_at,
        }
    }
}

impl Clone for SpectatorFrame {
    fn clone(&self) -> (copy: SpectatorFrame)
        ensures
            copy@ == self@,
    {
        SpectatorFrame {
            savestate: self.savestate.clone(),
            inputs: self.inputs.clone(),
            frame: self.frame,
            score_p1: self.score_p1,
            score_p2: self.score_p2,
            p1_username: self.p1_username.clone(),
            p2_username: self.p2_username.clone(),
            updated_at: self.updated_at,
        }
    }
}

/// The latest frame of a session, as a spectator sees it.
#[derive(Debug)]
pub struct SpectatorStateResponse {
    pub savestate: String,
    pub inputs: String,
    pub frame: u32,
    pub score_p1: u16,
    pub score_p2: u16,
    pub p1_username: String,
    pub p2_username: String,
}

/// The model of [`SpectatorStateResponse`].
#[verifier::ext_equal]
pub struct SpectatorStateResponseModel {
    pub savestate: Seq<char>,
    pub inputs: Seq<char>,
    pub frame: u32,
    pub score_p1: u16,
    pub score_p2: u16,
    pub p1_username: Seq<char>,
    pub p2_username: Seq<char>,
}

impl View for SpectatorStateResponse {
    type V = SpectatorStateResponseModel;

    open spec fn view(&self) -> SpectatorStateResponseModel {
        SpectatorStateResponseModel {
            savestate: self.savestate@,
            inputs: self.inputs@,
            frame: self.frame,
            score_p1: self.score_p1,
            score_p2: self.score_p2,
            p1_username: self.p1_username@,
            p2_username: self.p2_username@,
        }
    }
}

impl DeepView for SpectatorStateResponse {
    type V = SpectatorStateResponseModel;

    open spec fn deep_view(&self) -> SpectatorStateResponseModel {
        self@
    }
}

/// A match that is being played.
#[derive(Debug)]
pub struct LiveMatch {
    pub room_id: String,
    pub p1_username: String,
    pub p2_username: String,
    pub score_p1: u16,
    pub score_p2: u16,
    /// `HH:MM`, in UTC.
    pub started_at: String,
}

/// The model of [`LiveMatch`].
#[verifier::ext_equal]
pub struct LiveMatchModel {
    pub room_id: Seq<char>,
    pub p1_username: Seq<char>,
    pub p2_username: Seq<char>,
    pub score_p1: u16,
    pub score_p2: u16,
    pub started_at: Seq<char>,
}

impl View for LiveMatch {
    type V = LiveMatchModel;

    open spec fn view(&self) -> LiveMatchModel {
        LiveMatchModel {
            room_id: self.room_id@,
            p1_username: self.p1_username@,
            p2_username: self.p2_username@,
            score_p1: self.score_p1,
            score_p2: self.score_p2,
            started_at: self.started_at@,
        }
    }
}

impl DeepView for LiveMatch {
    type V = LiveMatchModel;

    open spec fn deep_view(&self) -> LiveMatchModel {
        self@
    }
}

/// The matches that are being played.
#[derive(Debug)]
pub struct LiveMatchesResponse {
    pub matches: Vec<LiveMatch>,
}

/// The model of [`LiveMatchesResponse`].
#[verifier::ext_equal]
pub struct LiveMatchesResponseModel {
    pub matches: Seq<LiveMatchModel>,
}

impl View for LiveMatchesResponse {
    type V = LiveMatchesResponseModel;

    open spec fn view(&self) -> LiveMatchesResponseModel {
        LiveMatchesResponseModel {
            matches: self.matches.deep_view(),
        }
    }
}

// Results and logins in flight

/// One side of a result that the other side has not confirmed. A result counts
/// only once both players have reported the same scores.
#[derive(Debug)]
pub struct PendingResult {
    pub reporter_discord_id: String,
    pub p1_score: u16,
    pub p2_score: u16,
    pub reported_at: Timestamp,
}

/// The model of [`PendingResult`].
#[verifier::ext_equal]
pub struct PendingResultModel {
    pub reporter_discord_id: Seq<char>,
    pub p1_score: u16,
    pub p2_score: u16,
    pub reported_at: Timestamp,
}

impl View for PendingResult {
    type V = PendingResultModel;

    open spec fn view(&self) -> PendingResultModel {
        PendingResultModel {
            reporter_discord_id: self.reporter_discord_id@,
            p1_score: self.p1_score,
            p2_score: self.p2_score,
            reported_at: self.reported_at,
        }
    }
}

impl Clone for PendingResult {
    fn clone(&self) -> (copy: PendingResult)
        ensures
            copy@ == self@,
    {
        PendingResult {
            reporter_discord_id: self.reporter_discord_id.clone(),
            p1_score: self.p1_score,
            p2_score: self.p2_score,
            reported_at: self.reported_at,
        }
    }
}

/// A result that both sides have reported.
#[derive(Debug)]
pub struct ConfirmedResult {
    pub committed_at: Timestamp,
}

/// The model of [`ConfirmedResult`].
#[verifier::ext_equal]
pub struct ConfirmedResultModel {
    pub committed_at: Timestamp,
}

impl View for ConfirmedResult {
    type V = ConfirmedResultModel;

    open spec fn view(&self) -> ConfirmedResultModel {
        ConfirmedResultModel {
            committed_at: self.committed_at,
        }
    }
}

impl Clone for ConfirmedResult {
    fn clone(&self) -> (copy: ConfirmedResult)
        ensures
            copy@ == self@,
    {
        ConfirmedResult {
            committed_at: self.committed_at,
        }
    }
}

/// A nonce that a Discord login was started with.
#[derive(Debug)]
pub struct OAuthState {
    pub issued_at: Timestamp,
}

/// The model of [`OAuthState`].
#[verifier::ext_equal]
pub struct OAuthStateModel {
    pub issued_at: Timestamp,
}

impl View for OAuthState {
    type V = OAuthStateModel;

    open spec fn view(&self) -> OAuthStateModel {
        OAuthStateModel {
            issued_at: self.issued_at,
        }
    }
}

impl Clone for OAuthState {
    fn clone(&self) -> (copy: OAuthState)
        ensures
            copy@ == self@,
    {
        OAuthState {
            issued_at: self.issued_at,
        }
    }
}

// Copies

/// A copy of an optional text.
pub fn copy_opt_text(s: &Option<String>) -> (copy: Option<String>)
    ensures
        copy.deep_view() == s.deep_view(),
{
    match s {
        Some(text) => Some(text.clone()),
        None => None,
    }
}

/// A copy of a byte string.
pub fn copy_bytes(bytes: &Vec<u8>) -> (copy: Vec<u8>)
    ensures
        copy@ == bytes@,
{
    let mut copy: Vec<u8> = Vec::new();
    let mut i: usize = 0;
    while i < bytes.len()
        invariant
            i <= bytes.len(),
            copy@ == bytes@.take(i as int),
        decreases bytes.len() - i,
    {
        copy.push(bytes[i]);
        i += 1;
    }
    assert(bytes@.take(bytes@.len() as int) == bytes@);
    copy
}

/// A copy of a line of players.
pub fn copy_line(line: &VecDeque<String>) -> (copy: VecDeque<String>)
    ensures
        copy.deep_view() == line.deep_view(),
{
    let mut copy: VecDeque<String> = VecDeque::new();
    let mut i: usize = 0;
    while i < line.len()
        invariant
            i <= line@.len(),
            copy.deep_view() == line.deep_view().take(i as int),
        decreases line.len() - i,
    {
        let ghost before = copy.deep_view();
        copy.push_back(line[i].clone());
        proof {
            assert(copy.deep_view() == before.push(line.deep_view()[i as int]));
            assert(copy.deep_view() == line.deep_view().take(i + 1));
        }
        i += 1;
    }
    assert(line.deep_view().take(line@.len() as int) == line.deep_view());
    copy
}

/// A copy of a list of members.
pub fn copy_lobby_members(members: &Vec<LobbyMember>) -> (copy: Vec<LobbyMember>)
    ensures
        copy.deep_view() == members.deep_view(),
{
    let mut copy: Vec<LobbyMember> = Vec::new();
    let mut i: usize = 0;
    while i < members.len()
        invariant
            i <= members.len(),
            copy.deep_view() == members.deep_view().take(i as int),
        decreases members.len() - i,
    {
        let ghost before = copy.deep_view();
        copy.push(members[i].clone());
        proof {
            assert(copy.deep_view() == before.push(members.deep_view()[i as int]));
            assert(copy.deep_view() == members.deep_view().take(i + 1));
        }
        i += 1;
    }
    assert(members.deep_view().take(members@.len() as int) == members.deep_view());
    copy
}

} // verus!
