//! Models stand for their values: each field of a model is that of the value, in
//! its own place, each variant is the one of its name, and each table of the state
//! has the rows of its own map.

use vstd::prelude::*;
use crate::config::{Config, ConfigModel, EnvVars};
use crate::discord::{Notice, NoticeModel};
use crate::error::{outcome, AppError, AppErrorModel};
use crate::incidents::{
    Detail, DetailValue, DetailValueModel, IncidentRequest, Payload, PayloadModel, ServerIncident,
    StoredIncident,
};
use crate::models::{
    AcceptChallengeRequest, ActiveMatch, CachedRating, CallbackParams, Challenge,
    ChallengeListResponse, ChallengeRequest, ChallengeResponse, ChallengeSummary, Claims,
    ConfirmedResult, CreateLobbyRequest, CreateLobbyResponse, CreateRoomRequest, CreateRoomResponse,
    CurrentMatchView, DiscordUser, GeneralLobbyResponse, GuestAuthRequest, GuestAuthResponse,
    JoinLobbyRequest, JoinRoomRequest, JoinRoomResponse, KohLobby, LfgRequest, LfgResponse,
    LiveMatch, LiveMatchesResponse, LobbyChatEntry, LobbyChatMessage, LobbyChatRequest,
    LobbyListResponse, LobbyMember, LobbyMemberView, LobbyPresence, LobbyRoomSummary,
    LobbyStateResponse, LobbyThumb, LobbyUser, MatchInfo, MatchResultRequest, MatchStatusResponse,
    OAuthState, PeerRelayResponse, PendingMatch, PendingResult, QueueEntry, ReadyCheckView,
    SparRoom, SpectatorFrame, SpectatorPushRequest, SpectatorStateResponse, TurnCredentials,
    TurnReadyRequest,
};
use crate::presence::RatingFetch;
use crate::results::{ResultOutcome, StatsForward, StatsJob};
use crate::state::{fresh_state, AppState};
use crate::table::{
    challenge_rows, chat_rows, confirmed_rows, frame_rows, lobby_rows, oauth_rows, pending_rows,
    presence_rows, queue_rows, rating_rows, room_rows, session_rows, thumb_rows,
};

verus! {

/// What is said of players, and what they say when they log in.
pub proof fn players_are_modelled_field_by_field(
    discord_user: DiscordUser,
    claims: Claims,
    guest_auth_request: GuestAuthRequest,
    guest_auth_response: GuestAuthResponse,
    callback_params: CallbackParams,
    o_auth_state: OAuthState,
)
    ensures
        discord_user@.id == discord_user.id@,
        discord_user@.username == discord_user.username@,
        discord_user@.discriminator == discord_user.discriminator@,
        discord_user@.avatar == discord_user.avatar.deep_view(),
        claims@.sub == claims.sub@,
        claims@.username == claims.username@,
        claims@.email == claims.email.deep_view(),
        claims@.exp == claims.exp,
        guest_auth_request@.username == guest_auth_request.username@,
        guest_auth_request@.email == guest_auth_request.email.deep_view(),
        guest_auth_request@.device_id == guest_auth_request.device_id.deep_view(),
        guest_auth_response@.token == guest_auth_response.token@,
        guest_auth_response@.username == guest_auth_response.username@,
        guest_auth_response@.expires_at == guest_auth_response.expires_at,
        callback_params@.code == callback_params.code@,
        callback_params@.state == callback_params.state.deep_view(),
        o_auth_state@.issued_at == o_auth_state.issued_at,
{
}

/// Requests for an opponent, their answers, and the sessions behind them.
pub proof fn sessions_are_modelled_field_by_field(
    lfg_request: LfgRequest,
    lfg_response: LfgResponse,
    match_status_response: MatchStatusResponse,
    queue_entry: QueueEntry,
)
    ensures
        lfg_request@.stun_endpoint == lfg_request.stun_endpoint@,
        lfg_request@.app_version == lfg_request.app_version@,
        lfg_request@.rom_hash == lfg_request.rom_hash@,
        lfg_response@.session_id == lfg_response.session_id@,
        lfg_response@.status == lfg_response.status,
        match_status_response@.status == match_status_response.status,
        match_status_response@.match_info == match_status_response.match_info.deep_view(),
        queue_entry@.session_id == queue_entry.session_id@,
        queue_entry@.discord_id == queue_entry.discord_id@,
        queue_entry@.username == queue_entry.username@,
        queue_entry@.stun_endpoint == queue_entry.stun_endpoint@,
        queue_entry@.app_version == queue_entry.app_version@,
        queue_entry@.rom_hash == queue_entry.rom_hash@,
        queue_entry@.queued_at == queue_entry.queued_at,
        queue_entry@.match_info == queue_entry.match_info.deep_view(),
        queue_entry@.cancelled == queue_entry.cancelled,
        queue_entry@.relayed_addr == queue_entry.relayed_addr.deep_view(),
{
}

/// What the two of a match are told.
pub proof fn matches_are_modelled_field_by_field(
    match_info: MatchInfo,
    turn_credentials: TurnCredentials,
    turn_ready_request: TurnReadyRequest,
    peer_relay_response: PeerRelayResponse,
)
    ensures
        match_info@.role == match_info.role,
        match_info@.peer_endpoint == match_info.peer_endpoint@,
        match_info@.punch_at_ms == match_info.punch_at_ms,
        match_info@.room_id == match_info.room_id@,
        match_info@.username == match_info.username@,
        match_info@.turn == match_info.turn.deep_view(),
        turn_credentials@.uri == turn_credentials.uri@,
        turn_credentials@.username == turn_credentials.username@,
        turn_credentials@.password == turn_credentials.password@,
        turn_credentials@.ttl_secs == turn_credentials.ttl_secs,
        turn_ready_request@.relayed_addr == turn_ready_request.relayed_addr@,
        peer_relay_response@.peer_relayed_addr == peer_relay_response.peer_relayed_addr.deep_view(),
{
}

/// Reports of games, and what becomes of them.
pub proof fn results_are_modelled_field_by_field(
    match_result_request: MatchResultRequest,
    pending_result: PendingResult,
    confirmed_result: ConfirmedResult,
    stats_forward: StatsForward,
    stats_job: StatsJob,
    result_outcome: ResultOutcome,
)
    ensures
        match_result_request@.session_id == match_result_request.session_id@,
        match_result_request@.match_index == match_result_request.match_index,
        match_result_request@.p1_score == match_result_request.p1_score,
        match_result_request@.p2_score == match_result_request.p2_score,
        match_result_request@.set_over == match_result_request.set_over,
        pending_result@.reporter_discord_id == pending_result.reporter_discord_id@,
        pending_result@.p1_score == pending_result.p1_score,
        pending_result@.p2_score == pending_result.p2_score,
        pending_result@.reported_at == pending_result.reported_at,
        confirmed_result@.committed_at == confirmed_result.committed_at,
        stats_forward@.room_id == stats_forward.room_id@,
        stats_forward@.winner_id == stats_forward.winner_id@,
        stats_forward@.loser_id == stats_forward.loser_id@,
        stats_forward@.winner_score == stats_forward.winner_score,
        stats_forward@.loser_score == stats_forward.loser_score,
        stats_forward@.rom_hash == stats_forward.rom_hash@,
        stats_forward@.winner_username == stats_forward.winner_username@,
        stats_forward@.loser_username == stats_forward.loser_username@,
        stats_job@.url == stats_job.url@,
        stats_job@.api_key == stats_job.api_key@,
        stats_job@.payload == stats_job.payload@,
        result_outcome@.reply == outcome(result_outcome.reply),
        result_outcome@.incident == result_outcome.incident.deep_view(),
        result_outcome@.forward == result_outcome.forward.deep_view(),
{
}

/// Rooms and their listing.
pub proof fn rooms_are_modelled_field_by_field(
    spar_room: SparRoom,
    create_room_request: CreateRoomRequest,
    create_room_response: CreateRoomResponse,
    join_room_request: JoinRoomRequest,
    join_room_response: JoinRoomResponse,
    lobby_room_summary: LobbyRoomSummary,
    lobby_list_response: LobbyListResponse,
)
    ensures
        spar_room@.room_id == spar_room.room_id@,
        spar_room@.creator_discord_id == spar_room.creator_discord_id@,
        spar_room@.creator_username == spar_room.creator_username@,
        spar_room@.created_at == spar_room.created_at,
        spar_room@.name == spar_room.name@,
        spar_room@.format == spar_room.format,
        spar_room@.private == spar_room.private,
        spar_room@.app_version == spar_room.app_version@,
        spar_room@.rom_hash == spar_room.rom_hash@,
        create_room_request@.stun_endpoint == create_room_request.stun_endpoint@,
        create_room_request@.app_version == create_room_request.app_version@,
        create_room_request@.rom_hash == create_room_request.rom_hash@,
        create_room_request@.name == create_room_request.name.deep_view(),
        create_room_request@.format == create_room_request.format,
        create_room_request@.private == create_room_request.private,
        create_room_response@.room_id == create_room_response.room_id@,
        create_room_response@.creator_session_id == create_room_response.creator_session_id@,
        join_room_request@.stun_endpoint == join_room_request.stun_endpoint@,
        join_room_request@.app_version == join_room_request.app_version@,
        join_room_request@.rom_hash == join_room_request.rom_hash@,
        join_room_response@.session_id == join_room_response.session_id@,
        join_room_response@.match_info == join_room_response.match_info@,
        lobby_room_summary@.id == lobby_room_summary.id@,
        lobby_room_summary@.name == lobby_room_summary.name@,
        lobby_room_summary@.host_username == lobby_room_summary.host_username@,
        lobby_room_summary@.format == lobby_room_summary.format,
        lobby_room_summary@.players == lobby_room_summary.players,
        lobby_room_summary@.private == lobby_room_summary.private,
        lobby_room_summary@.status == lobby_room_summary.status@,
        lobby_list_response@.lobbies == lobby_list_response.lobbies.deep_view(),
{
}

/// Heartbeats, chat and ratings.
pub proof fn the_general_lobby_is_modelled_field_by_field(
    lobby_presence: LobbyPresence,
    lobby_chat_entry: LobbyChatEntry,
    lobby_chat_request: LobbyChatRequest,
    lobby_user: LobbyUser,
    lobby_chat_message: LobbyChatMessage,
    shown: GeneralLobbyResponse,
    cached_rating: CachedRating,
)
    ensures
        lobby_presence@.player_id == lobby_presence.player_id@,
        lobby_presence@.username == lobby_presence.username@,
        lobby_presence@.status == lobby_presence.status@,
        lobby_presence@.last_seen == lobby_presence.last_seen,
        lobby_chat_entry@.message_id == lobby_chat_entry.message_id@,
        lobby_chat_entry@.player_id == lobby_chat_entry.player_id@,
        lobby_chat_entry@.username == lobby_chat_entry.username@,
        lobby_chat_entry@.message == lobby_chat_entry.message@,
        lobby_chat_entry@.created_at == lobby_chat_entry.created_at,
        lobby_chat_request@.message == lobby_chat_request.message@,
        lobby_user@.player_id == lobby_user.player_id@,
        lobby_user@.username == lobby_user.username@,
        lobby_user@.status == lobby_user.status@,
        lobby_user@.rating == lobby_user.rating,
        lobby_chat_message@.username == lobby_chat_message.username@,
        lobby_chat_message@.message == lobby_chat_message.message@,
        lobby_chat_message@.timestamp == lobby_chat_message.timestamp@,
        shown@.status == shown.status@,
        shown@.users == shown.users.deep_view(),
        shown@.chat == shown.chat.deep_view(),
        cached_rating@.rating == cached_rating.rating,
        cached_rating@.fetched_at == cached_rating.fetched_at,
{
}

/// Challenges and their listing.
pub proof fn challenges_are_modelled_field_by_field(
    challenge: Challenge,
    challenge_request: ChallengeRequest,
    challenge_response: ChallengeResponse,
    accept_challenge_request: AcceptChallengeRequest,
    challenge_summary: ChallengeSummary,
    challenge_list_response: ChallengeListResponse,
)
    ensures
        challenge@.challenge_id == challenge.challenge_id@,
        challenge@.challenger_session_id == challenge.challenger_session_id@,
        challenge@.challenger_discord_id == challenge.challenger_discord_id@,
        challenge@.challenger_username == challenge.challenger_username@,
        challenge@.target_discord_id == challenge.target_discord_id@,
        challenge@.target_username == challenge.target_username@,
        challenge@.format == challenge.format,
        challenge@.stun_endpoint == challenge.stun_endpoint@,
        challenge@.app_version == challenge.app_version@,
        challenge@.rom_hash == challenge.rom_hash@,
        challenge@.created_at == challenge.created_at,
        challenge_request@.target_id == challenge_request.target_id@,
        challenge_request@.stun_endpoint == challenge_request.stun_endpoint@,
        challenge_request@.app_version == challenge_request.app_version@,
        challenge_request@.rom_hash == challenge_request.rom_hash@,
        challenge_request@.format == challenge_request.format,
        challenge_response@.challenge_id == challenge_response.challenge_id@,
        challenge_response@.challenger_session_id == challenge_response.challenger_session_id@,
        challenge_response@.status == challenge_response.status@,
        accept_challenge_request@.stun_endpoint == accept_challenge_request.stun_endpoint@,
        accept_challenge_request@.app_version == accept_challenge_request.app_version@,
        accept_challenge_request@.rom_hash == accept_challenge_request.rom_hash@,
        challenge_summary@.challenge_id == challenge_summary.challenge_id@,
        challenge_summary@.direction == challenge_summary.direction@,
        challenge_summary@.challenger_id == challenge_summary.challenger_id@,
        challenge_summary@.challenger_username == challenge_summary.challenger_username@,
        challenge_summary@.target_id == challenge_summary.target_id@,
        challenge_summary@.target_username == challenge_summary.target_username@,
        challenge_summary@.format == challenge_summary.format,
        challenge_summary@.created_at == challenge_summary.created_at@,
        challenge_list_response@.challenges == challenge_list_response.challenges.deep_view(),
{
}

/// Lobbies, and requests to them.
pub proof fn lobbies_are_modelled_field_by_field(
    lobby_member: LobbyMember,
    pending_match: PendingMatch,
    active_match: ActiveMatch,
    koh_lobby: KohLobby,
    create_lobby_request: CreateLobbyRequest,
    create_lobby_response: CreateLobbyResponse,
    join_lobby_request: JoinLobbyRequest,
    lobby_thumb: LobbyThumb,
)
    ensures
        lobby_member@.player_id == lobby_member.player_id@,
        lobby_member@.username == lobby_member.username@,
        lobby_member@.stun_endpoint == lobby_member.stun_endpoint@,
        lobby_member@.role == lobby_member.role,
        lobby_member@.last_seen == lobby_member.last_seen,
        pending_match@.champion == pending_match.champion@,
        pending_match@.challenger == pending_match.challenger@,
        pending_match@.deadline == pending_match.deadline,
        active_match@.host == active_match.host@,
        active_match@.join == active_match.join@,
        active_match@.room_id == active_match.room_id@,
        active_match@.host_session == active_match.host_session@,
        active_match@.join_session == active_match.join_session@,
        active_match@.started_at == active_match.started_at,
        koh_lobby@.id == koh_lobby.id@,
        koh_lobby@.name == koh_lobby.name@,
        koh_lobby@.ranked == koh_lobby.ranked,
        koh_lobby@.private == koh_lobby.private,
        koh_lobby@.format == koh_lobby.format,
        koh_lobby@.host_id == koh_lobby.host_id@,
        koh_lobby@.app_version == koh_lobby.app_version@,
        koh_lobby@.rom_hash == koh_lobby.rom_hash@,
        koh_lobby@.created_at == koh_lobby.created_at,
        koh_lobby@.last_activity == koh_lobby.last_activity,
        koh_lobby@.members == koh_lobby.members.deep_view(),
        koh_lobby@.queue == koh_lobby.queue.deep_view(),
        koh_lobby@.pending == koh_lobby.pending.deep_view(),
        koh_lobby@.current == koh_lobby.current.deep_view(),
        create_lobby_request@.name == create_lobby_request.name@,
        create_lobby_request@.ranked == create_lobby_request.ranked,
        create_lobby_request@.private == create_lobby_request.private,
        create_lobby_request@.format == create_lobby_request.format,
        create_lobby_request@.stun_endpoint == create_lobby_request.stun_endpoint@,
        create_lobby_request@.app_version == create_lobby_request.app_version@,
        create_lobby_request@.rom_hash == create_lobby_request.rom_hash@,
        create_lobby_response@.lobby_id == create_lobby_response.lobby_id@,
        join_lobby_request@.stun_endpoint == join_lobby_request.stun_endpoint@,
        join_lobby_request@.app_version == join_lobby_request.app_version@,
        join_lobby_request@.rom_hash == join_lobby_request.rom_hash@,
        join_lobby_request@.spectate == join_lobby_request.spectate,
        lobby_thumb@.bytes == lobby_thumb.bytes@,
        lobby_thumb@.pushed_at == lobby_thumb.pushed_at,
{
}

/// What is shown of lobbies.
pub proof fn views_of_lobbies_are_modelled_field_by_field(
    lobby_member_view: LobbyMemberView,
    current_match_view: CurrentMatchView,
    ready_check_view: ReadyCheckView,
    shown: LobbyStateResponse,
)
    ensures
        lobby_member_view@.player_id == lobby_member_view.player_id@,
        lobby_member_view@.username == lobby_member_view.username@,
        lobby_member_view@.rating == lobby_member_view.rating,
        lobby_member_view@.role == lobby_member_view.role,
        lobby_member_view@.in_match == lobby_member_view.in_match,
        current_match_view@.host_username == current_match_view.host_username@,
        current_match_view@.join_username == current_match_view.join_username@,
        current_match_view@.host_session == current_match_view.host_session@,
        current_match_view@.join_session == current_match_view.join_session@,
        ready_check_view@.champion_username == ready_check_view.champion_username@,
        ready_check_view@.challenger_username == ready_check_view.challenger_username@,
        ready_check_view@.seconds_left == ready_check_view.seconds_left,
        ready_check_view@.you_are_challenger == ready_check_view.you_are_challenger,
        shown@.id == shown.id@,
        shown@.name == shown.name@,
        shown@.ranked == shown.ranked,
        shown@.private == shown.private,
        shown@.format == shown.format,
        shown@.members == shown.members.deep_view(),
        shown@.queue == shown.queue.deep_view(),
        shown@.current == shown.current.deep_view(),
        shown@.ready_check == shown.ready_check.deep_view(),
        shown@.your_position == shown.your_position,
        shown@.your_role == shown.your_role,
        shown@.your_match == shown.your_match.deep_view(),
        shown@.your_session == shown.your_session.deep_view(),
{
}

/// Frames, and what is shown of matches.
pub proof fn frames_are_modelled_field_by_field(
    spectator_push_request: SpectatorPushRequest,
    spectator_frame: SpectatorFrame,
    shown: SpectatorStateResponse,
    live_match: LiveMatch,
    live_matches_response: LiveMatchesResponse,
)
    ensures
        spectator_push_request@.savestate == spectator_push_request.savestate@,
        spectator_push_request@.inputs == spectator_push_request.inputs@,
        spectator_push_request@.frame == spectator_push_request.frame,
        spectator_push_request@.score_p1 == spectator_push_request.score_p1,
        spectator_push_request@.score_p2 == spectator_push_request.score_p2,
        spectator_frame@.savestate == spectator_frame.savestate@,
        spectator_frame@.inputs == spectator_frame.inputs@,
        spectator_frame@.frame == spectator_frame.frame,
        spectator_frame@.score_p1 == spectator_frame.score_p1,
        spectator_frame@.score_p2 == spectator_frame.score_p2,
        spectator_frame@.p1_username == spectator_frame.p1_username@,
        spectator_frame@.p2_username == spectator_frame.p2_username@,
        spectator_frame@.updated_at == spectator_frame.updated_at,
        shown@.savestate == shown.savestate@,
        shown@.inputs == shown.inputs@,
        shown@.frame == shown.frame,
        shown@.score_p1 == shown.score_p1,
        shown@.score_p2 == shown.score_p2,
        shown@.p1_username == shown.p1_username@,
        shown@.p2_username == shown.p2_username@,
        live_match@.room_id == live_match.room_id@,
        live_match@.p1_username == live_match.p1_username@,
        live_match@.p2_username == live_match.p2_username@,
        live_match@.score_p1 == live_match.score_p1,
        live_match@.score_p2 == live_match.score_p2,
        live_match@.started_at == live_match.started_at@,
        live_matches_response@.matches == live_matches_response.matches.deep_view(),
{
}

/// Settings and the variables that they come from.
pub proof fn settings_are_modelled_field_by_field(
    config: Config,
    env_vars: EnvVars,
)
    ensures
        config@.discord_client_id == config.discord_client_id@,
        config@.discord_client_secret == config.discord_client_secret@,
        config@.discord_webhook_url == config.discord_webhook_url.deep_view(),
        config@.discord_redirect_uri == config.discord_redirect_uri@,
        config@.jwt_secret == config.jwt_secret@,
        config@.turn_server_ip == config.turn_server_ip.deep_view(),
        config@.turn_shared_secret == config.turn_shared_secret.deep_view(),
        config@.turn_realm == config.turn_realm@,
        config@.stats_service_url == config.stats_service_url.deep_view(),
        config@.stats_api_key == config.stats_api_key.deep_view(),
        config@.github_issues_repo == config.github_issues_repo.deep_view(),
        config@.github_issues_token == config.github_issues_token.deep_view(),
        env_vars@.discord_client_id == env_vars.discord_client_id.deep_view(),
        env_vars@.discord_client_secret == env_vars.discord_client_secret.deep_view(),
        env_vars@.discord_webhook_url == env_vars.discord_webhook_url.deep_view(),
        env_vars@.discord_redirect_uri == env_vars.discord_redirect_uri.deep_view(),
        env_vars@.jwt_secret == env_vars.jwt_secret.deep_view(),
        env_vars@.turn_server_ip == env_vars.turn_server_ip.deep_view(),
        env_vars@.turn_shared_secret == env_vars.turn_shared_secret.deep_view(),
        env_vars@.turn_realm == env_vars.turn_realm.deep_view(),
        env_vars@.stats_service_url == env_vars.stats_service_url.deep_view(),
        env_vars@.stats_api_key == env_vars.stats_api_key.deep_view(),
        env_vars@.github_issues_repo == env_vars.github_issues_repo.deep_view(),
        env_vars@.github_issues_token == env_vars.github_issues_token.deep_view(),
{
}

/// Incidents, as they are told, noticed and stored.
pub proof fn incidents_are_modelled_field_by_field(
    incident_request: IncidentRequest,
    detail: Detail,
    server_incident: ServerIncident,
    stored_incident: StoredIncident,
)
    ensures
        incident_request@.kind == incident_request.kind@,
        incident_request@.summary == incident_request.summary@,
        incident_request@.session_id == incident_request.session_id@,
        incident_request@.room_id == incident_request.room_id@,
        incident_request@.peer_endpoint == incident_request.peer_endpoint@,
        incident_request@.role == incident_request.role@,
        incident_request@.app_version == incident_request.app_version@,
        incident_request@.build_date == incident_request.build_date@,
        incident_request@.git_hash == incident_request.git_hash@,
        incident_request@.rom_hash == incident_request.rom_hash@,
        incident_request@.p1_score == incident_request.p1_score,
        incident_request@.p2_score == incident_request.p2_score,
        incident_request@.frames_advanced == incident_request.frames_advanced,
        incident_request@.net_log_tail == incident_request.net_log_tail@,
        incident_request@.ggrs_event_tail == incident_request.ggrs_event_tail@,
        detail@.name == detail.name@,
        detail@.value == detail.value@,
        server_incident@.kind == server_incident.kind@,
        server_incident@.summary == server_incident.summary@,
        server_incident@.room_id == server_incident.room_id@,
        server_incident@.session_ids == server_incident.session_ids.deep_view(),
        server_incident@.usernames == server_incident.usernames.deep_view(),
        server_incident@.details == server_incident.details.deep_view(),
        stored_incident@.incident_id == stored_incident.incident_id@,
        stored_incident@.origin == stored_incident.origin@,
        stored_incident@.recorded_at == stored_incident.recorded_at,
        stored_incident@.reporter_discord_id == stored_incident.reporter_discord_id.deep_view(),
        stored_incident@.reporter_username == stored_incident.reporter_username.deep_view(),
        stored_incident@.payload == stored_incident.payload@,
{
}

/// Fetches of ratings: whose, and from where.
pub proof fn fetches_are_modelled_field_by_field(fetch: RatingFetch)
    ensures
        fetch@.0 == fetch.player_id@,
        fetch@.1 == fetch.url@,
{
}

/// Refusals keep their kind and their text.
pub proof fn refusals_are_modelled_by_kind(m: String)
    ensures
        AppError::Unauthorized(m)@ == AppErrorModel::Unauthorized(m@),
        AppError::NotFound(m)@ == AppErrorModel::NotFound(m@),
        AppError::BadRequest(m)@ == AppErrorModel::BadRequest(m@),
        AppError::Internal(m)@ == AppErrorModel::Internal(m@),
{
}

/// Announcements keep their kind and their names in order.
pub proof fn notices_are_modelled_by_kind(a: String, b: String)
    ensures
        (Notice::Lfg { username: a })@ == (NoticeModel::Lfg { username: a@ }),
        (Notice::Matched { first: a, second: b })@ == (NoticeModel::Matched {
            first: a@,
            second: b@,
        }),
{
}

/// Details and payloads keep their kind.
pub proof fn details_are_modelled_by_kind(
    text: String,
    number: i64,
    flag: bool,
    told: IncidentRequest,
    noted: ServerIncident,
)
    ensures
        DetailValue::Text(text)@ == DetailValueModel::Text(text@),
        DetailValue::Number(number)@ == DetailValueModel::Number(number),
        DetailValue::Flag(flag)@ == DetailValueModel::Flag(flag),
        Payload::Client(told)@ == PayloadModel::Client(told@),
        Payload::Server(noted)@ == PayloadModel::Server(noted@),
{
}

/// The state has each table under its own name.
pub proof fn the_state_is_modelled_table_by_table(state: AppState)
    ensures
        state@.config == state.config@,
        state@.queue == queue_rows(state.queue),
        state@.player_sessions == session_rows(state.player_sessions),
        state@.pending_results == pending_rows(state.pending_results),
        state@.confirmed_results == confirmed_rows(state.confirmed_results),
        state@.spar_rooms == room_rows(state.spar_rooms),
        state@.lobby_presence == presence_rows(state.lobby_presence),
        state@.lobby_chat == chat_rows(state.lobby_chat),
        state@.challenges == challenge_rows(state.challenges),
        state@.spectator_frames == frame_rows(state.spectator_frames),
        state@.oauth_states == oauth_rows(state.oauth_states),
        state@.ratings == rating_rows(state.ratings),
        state@.koh_lobbies == lobby_rows(state.koh_lobbies),
        state@.lobby_thumbs == thumb_rows(state.lobby_thumbs),
{
}

/// A service that has just started has its settings and no rows.
pub proof fn a_fresh_state_is_empty(config: ConfigModel, k: Seq<char>)
    ensures
        ({
            let s = fresh_state(config);
            &&& s.config == config
            &&& !s.queue.contains_key(k) && !s.player_sessions.contains_key(k)
            &&& !s.pending_results.contains_key(k) && !s.confirmed_results.contains_key(k)
            &&& !s.spar_rooms.contains_key(k) && !s.lobby_presence.contains_key(k)
            &&& !s.lobby_chat.contains_key(k) && !s.challenges.contains_key(k)
            &&& !s.spectator_frames.contains_key(k) && !s.oauth_states.contains_key(k)
            &&& !s.ratings.contains_key(k) && !s.koh_lobbies.contains_key(k)
            &&& !s.lobby_thumbs.contains_key(k)
        }),
{
}

} // verus!
