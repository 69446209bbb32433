//! Incidents: records of matches that failed, kept for investigation. A record
//! is stored under its day and its id.

use vstd::prelude::*;
use vstd::utf8::encode_utf8;
use crate::auth::{signed_claims, token_refused, verify_token};
use crate::config::Config;
use crate::error::AppError;
use crate::ids::{new_uuid, uuid_text};
use crate::models::{
    Claims, ClaimsModel, PendingResult, PendingResultModel, PlayerRole, QueueEntry, QueueEntryModel,
};
use crate::text::{chars_of, decimal, decimal_text, joined, padded_decimal, padded_decimal_text, text_of};
use crate::text::{signed_decimal, signed_decimal_text};
use crate::time::{date_at, elapsed_secs, rfc3339_at, Timestamp};
use crate::url::{percent_encode, percent_text};

verus! {

/// How much of a log is kept, in bytes.
pub const MAX_LOG_BYTES: usize = 262_144;

/// A player's account of a match that failed. Anything but the kind may be
/// left empty.
#[derive(Debug)]
pub struct IncidentRequest {
    /// A free-form category, such as "hole_punch_failed".
    pub kind: String,
    /// One line of text.
    pub summary: String,
    pub session_id: String,
    pub room_id: String,
    pub peer_endpoint: String,
    /// "host" or "join".
    pub role: String,
    pub app_version: String,
    pub build_date: String,
    pub git_hash: String,
    pub rom_hash: String,
    /// Final scores, if the match got that far.
    pub p1_score: Option<u16>,
    pub p2_score: Option<u16>,
    /// How many frames were played before the failure.
    pub frames_advanced: u32,
    pub net_log_tail: String,
    pub ggrs_event_tail: String,
}

/// The model of [`IncidentRequest`].
#[verifier::ext_equal]
pub struct IncidentRequestModel {
    pub kind: Seq<char>,
    pub summary: Seq<char>,
    pub session_id: Seq<char>,
    pub room_id: Seq<char>,
    pub peer_endpoint: Seq<char>,
    pub role: Seq<char>,
    pub app_version: Seq<char>,
    pub build_date: Seq<char>,
    pub git_hash: Seq<char>,
    pub rom_hash: Seq<char>,
    pub p1_score: Option<u16>,
    pub p2_score: Option<u16>,
    pub frames_advanced: u32,
    pub net_log_tail: Seq<char>,
    pub ggrs_event_tail: Seq<char>,
}

impl View for IncidentRequest {
    type V = IncidentRequestModel;

    open spec fn view(&self) -> IncidentRequestModel {
        IncidentRequestModel {
            kind: self.kind@,
            summary: self.summary@,
            session_id: self.session_id@,
            room_id: self.room_id@,
            peer_endpoint: self.peer_endpoint@,
            role: self.role@,
            app_version: self.app_version@,
            build_date: self.build_date@,
            git_hash: self.git_hash@,
            rom_hash: self.rom_hash@,
            p1_score: self.p1_score,
            p2_score: self.p2_score,
            frames_advanced: self.frames_advanced,
            net_log_tail: self.net_log_tail@,
            ggrs_event_tail: self.ggrs_event_tail@,
        }
    }
}

/// A value in the details of an incident.
#[derive(Debug)]
pub enum DetailValue {
    Text(String),
    Number(i64),
    Flag(bool),
}

/// The model of [`DetailValue`].
#[verifier::ext_equal]
pub enum DetailValueModel {
    Text(Seq<char>),
    Number(i64),
    Flag(bool),
}

impl View for DetailValue {
    type V = DetailValueModel;

    open spec fn view(&self) -> DetailValueModel {
        match self {
            DetailValue::Text(s) => DetailValueModel::Text(s@),
            DetailValue::Number(n) => DetailValueModel::Number(*n),
            DetailValue::Flag(b) => DetailValueModel::Flag(*b),
        }
    }
}

/// A named value in the details of an incident.
#[derive(Debug)]
pub struct Detail {
    pub name: String,
    pub value: DetailValue,
}

/// The model of [`Detail`].
#[verifier::ext_equal]
pub struct DetailModel {
    pub name: Seq<char>,
    pub value: DetailValueModel,
}

impl View for Detail {
    type V = DetailModel;

    open spec fn view(&self) -> DetailModel {
        DetailModel {
            name: self.name@,
            value: self.value@,
        }
    }
}

impl DeepView for Detail {
    type V = DetailModel;

    open spec fn deep_view(&self) -> DetailModel {
        self@
    }
}

/// Something abnormal that the service noticed by itself.
#[derive(Debug)]
pub struct ServerIncident {
    pub kind: String,
    pub summary: String,
    pub room_id: String,
    pub session_ids: Vec<String>,
    pub usernames: Vec<String>,
    pub details: Vec<Detail>,
}

/// The model of [`ServerIncident`].
#[verifier::ext_equal]
pub struct ServerIncidentModel {
    pub kind: Seq<char>,
    pub summary: Seq<char>,
    pub room_id: Seq<char>,
    pub session_ids: Seq<Seq<char>>,
    pub usernames: Seq<Seq<char>>,
    pub details: Seq<DetailModel>,
}

impl View for ServerIncident {
    type V = ServerIncidentModel;

    open spec fn view(&self) -> ServerIncidentModel {
        ServerIncidentModel {
            kind: self.kind@,
            summary: self.summary@,
            room_id: self.room_id@,
            session_ids: self.session_ids.deep_view(),
            usernames: self.usernames.deep_view(),
            details: self.details.deep_view(),
        }
    }
}

impl DeepView for ServerIncident {
    type V = ServerIncidentModel;

    open spec fn deep_view(&self) -> ServerIncidentModel {
        self@
    }
}

/// What an incident is about.
#[derive(Debug)]
pub enum Payload {
    /// A player's account.
    Client(IncidentRequest),
    /// What the service noticed.
    Server(ServerIncident),
}

/// The model of [`Payload`].
#[verifier::ext_equal]
pub enum PayloadModel {
    Client(IncidentRequestModel),
    Server(ServerIncidentModel),
}

impl View for Payload {
    type V = PayloadModel;

    open spec fn view(&self) -> PayloadModel {
        match self {
            Payload::Client(req) => PayloadModel::Client(req@),
            Payload::Server(incident) => PayloadModel::Server(incident@),
        }
    }
}

/// An incident as it is stored, with what only the service can say of it.
#[derive(Debug)]
pub struct StoredIncident {
    pub incident_id: String,
    /// "client" or "server".
    pub origin: &'static str,
    pub recorded_at: Timestamp,
    /// Who reported it, by their token.
    pub reporter_discord_id: Option<String>,
    pub reporter_username: Option<String>,
    pub payload: Payload,
}

/// The model of [`StoredIncident`].
#[verifier::ext_equal]
pub struct StoredIncidentModel {
    pub incident_id: Seq<char>,
    pub origin: Seq<char>,
    pub recorded_at: Timestamp,
    pub reporter_discord_id: Option<Seq<char>>,
    pub reporter_username: Option<Seq<char>>,
    pub payload: PayloadModel,
}

impl View for StoredIncident {
    type V = StoredIncidentModel;

    open spec fn view(&self) -> StoredIncidentModel {
        StoredIncidentModel {
            incident_id: self.incident_id@,
            origin: self.origin@,
            recorded_at: self.recorded_at,
            reporter_discord_id: self.reporter_discord_id.deep_view(),
            reporter_username: self.reporter_username.deep_view(),
            payload: self.payload@,
        }
    }
}

// Logs

/// The longest tail of a text that takes at most `max` bytes.
pub open spec fn fitting_tail(s: Seq<char>, max: int) -> Seq<char>
    decreases s.len(),
{
    if encode_utf8(s).len() <= max || s.len() == 0 {
        s
    } else {
        fitting_tail(s.drop_first(), max)
    }
}

/// A log, cut to its tail of at most `max` bytes. A log that was cut says how
/// many bytes are gone.
pub open spec fn truncated(s: Seq<char>, max: int) -> Seq<char> {
    if encode_utf8(s).len() <= max {
        s
    } else {
        let tail = fitting_tail(s, max);
        "[truncated "@ + decimal((encode_utf8(s).len() - encode_utf8(tail).len()) as nat)
            + " bytes from front]\n"@ + tail
    }
}

/// How many bytes a character takes.
fn char_width(c: char) -> (width: usize)
    ensures
        width == encode_utf8(seq![c]).len(),
        1 <= width <= 4,
{
    let code = c as u32;
    proof {
        reveal_with_fuel(encode_utf8, 2);
    }
    if code <= 0x7f {
        1
    } else if code <= 0x7ff {
        2
    } else if code <= 0xffff {
        3
    } else {
        4
    }
}

/// Cuts a log to its tail of at most `max_bytes` bytes: the end of a log is
/// where the failure shows.
pub fn truncate_field(s: &mut String, max_bytes: usize)
    ensures
        final(s)@ == truncated(old(s)@, max_bytes as int),
{
    let total: usize = s.as_str().as_bytes().len();
    if total <= max_bytes {
        return;
    }
    let chars = chars_of(s.as_str());
    let ghost whole = s@;
    let mut left: usize = total;
    let mut i: usize = 0;
    assert(whole.skip(0) == whole);
    while left > max_bytes
        invariant
            chars@ == whole,
            i <= chars.len(),
            left <= total,
            left == encode_utf8(whole.skip(i as int)).len(),
            fitting_tail(whole, max_bytes as int) == fitting_tail(
                whole.skip(i as int),
                max_bytes as int,
            ),
        decreases left,
    {
        proof {
            if i == chars.len() {
                assert(whole.skip(i as int).len() == 0);
            }
        }
        let width = char_width(chars[i]);
        proof {
            let rest = whole.skip(i as int);
            assert(rest.drop_first() == whole.skip(i + 1));
            assert(encode_utf8(seq![rest[0]]).len() == vstd::utf8::encode_scalar(
                rest[0] as u32,
            ).len()) by {
                reveal_with_fuel(encode_utf8, 2);
            }
        }
        left -= width;
        i += 1;
    }
    let tail = text_of(&chars, i, chars.len());
    let mut out = joined("[truncated ", decimal_text((total - left) as u64).as_str());
    out.append(" bytes from front]\n");
    out.append(tail.as_str());
    proof {
        assert(tail@ == whole.skip(i as int));
    }
    *s = out;
}

/// What is left of a log after a cut takes at most `max` bytes.
pub proof fn tail_fits(s: Seq<char>, max: int)
    requires
        max >= 0,
    ensures
        encode_utf8(fitting_tail(s, max)).len() <= max,
        exists|n: int| 0 <= n <= s.len() && fitting_tail(s, max) == #[trigger] s.skip(n),
    decreases s.len(),
{
    if encode_utf8(s).len() <= max || s.len() == 0 {
        assert(s.skip(0) == s);
    } else {
        tail_fits(s.drop_first(), max);
        let n = choose|n: int|
            0 <= n <= s.drop_first().len() && fitting_tail(s.drop_first(), max)
                == #[trigger] s.drop_first().skip(n);
        assert(s.drop_first().skip(n) == s.skip(n + 1));
    }
}

// Records

/// The record of a player's account. Its logs are cut.
pub open spec fn client_incident(
    player: ClaimsModel,
    req: IncidentRequestModel,
    incident_id: Seq<char>,
    now: Timestamp,
) -> StoredIncidentModel {
    StoredIncidentModel {
        incident_id,
        origin: "client"@,
        recorded_at: now,
        reporter_discord_id: Some(player.sub),
        reporter_username: Some(player.username),
        payload: PayloadModel::Client(
            IncidentRequestModel {
                net_log_tail: truncated(req.net_log_tail, MAX_LOG_BYTES as int),
                ggrs_event_tail: truncated(req.ggrs_event_tail, MAX_LOG_BYTES as int),
                ..req
            },
        ),
    }
}

/// The record of what the service noticed.
pub open spec fn server_incident(
    incident: ServerIncidentModel,
    incident_id: Seq<char>,
    now: Timestamp,
) -> StoredIncidentModel {
    StoredIncidentModel {
        incident_id,
        origin: "server"@,
        recorded_at: now,
        reporter_discord_id: None,
        reporter_username: None,
        payload: PayloadModel::Server(incident),
    }
}

/// The record of a player's account.
pub fn submit_incident_at(
    player: &Claims,
    req: IncidentRequest,
    incident_id: String,
    now: Timestamp,
) -> (stored: StoredIncident)
    ensures
        stored@ == client_incident(player@, req@, incident_id@, now),
{
    let mut req = req;
    truncate_field(&mut req.net_log_tail, MAX_LOG_BYTES);
    truncate_field(&mut req.ggrs_event_tail, MAX_LOG_BYTES);
    StoredIncident {
        incident_id,
        origin: "client",
        recorded_at: now,
        reporter_discord_id: Some(player.sub.clone()),
        reporter_username: Some(player.username.clone()),
        payload: Payload::Client(req),
    }
}

/// Takes the caller's account of a match that failed, and gives the record to
/// store.
pub fn submit_incident(config: &Config, token: &str, req: IncidentRequest) -> (res: Result<
    StoredIncident,
    AppError,
>)
    ensures
        !token_refused(res, token@, config@.jwt_secret) ==> exists|
            player: ClaimsModel,
            incident_id: Seq<char>,
            now: Timestamp,
        |
            signed_claims(token@, config@.jwt_secret) == Some(player) && uuid_text(incident_id)
                && now.nanos >= 0 && (res matches Ok(stored) && stored@ == #[trigger] client_incident(
                player,
                req@,
                incident_id,
                now,
            )),
{
    match verify_token(token, config.jwt_secret.as_str()) {
        Ok(player) => {
            let incident_id = new_uuid();
            let now = Timestamp::now();
            let ghost drawn = incident_id@;
            let stored = submit_incident_at(&player, req, incident_id, now);
            proof {
                assert(stored@ == client_incident(player@, req@, drawn, now));
            }
            Ok(stored)
        },
        Err(e) => Err(e),
    }
}

/// The record of what the service noticed.
pub fn record_server_incident_at(
    incident: ServerIncident,
    incident_id: String,
    now: Timestamp,
) -> (stored: StoredIncident)
    ensures
        stored@ == server_incident(incident@, incident_id@, now),
{
    StoredIncident {
        incident_id,
        origin: "server",
        recorded_at: now,
        reporter_discord_id: None,
        reporter_username: None,
        payload: Payload::Server(incident),
    }
}

/// Gives the record to store of what the service noticed.
pub fn record_server_incident(incident: ServerIncident) -> (stored: StoredIncident)
    ensures
        exists|incident_id: Seq<char>, now: Timestamp|
            uuid_text(incident_id) && now.nanos >= 0 && stored@ == #[trigger] server_incident(
                incident@,
                incident_id,
                now,
            ),
{
    let incident_id = new_uuid();
    let now = Timestamp::now();
    record_server_incident_at(incident, incident_id, now)
}

// Storage

/// A year in at least four characters, the sign of one before the year 0
/// included.
pub open spec fn year_text(year: int) -> Seq<char> {
    if year < 0 {
        "-"@ + padded_decimal((-year) as nat, 3)
    } else {
        padded_decimal(year as nat, 4)
    }
}

/// The name under which a record is stored: `YYYY/MM/DD/<incident_id>.json`.
pub open spec fn object_name(at: Timestamp, incident_id: Seq<char>) -> Seq<char> {
    let date = date_at(at);
    year_text(date.0 as int) + "/"@ + padded_decimal(date.1 as nat, 2) + "/"@
        + padded_decimal(date.2 as nat, 2) + "/"@ + incident_id + ".json"@
}

/// Where a record is uploaded to.
pub open spec fn upload_url(object: Seq<char>) -> Seq<char> {
    "https://storage.googleapis.com/upload/storage/v1/b/quarterframe-freeplay-incidents/o?uploadType=media&name="@
        + percent_text(object)
}

/// The name under which a record is stored, and where it is uploaded to.
pub fn upload_target(stored: &StoredIncident) -> (target: (String, String))
    ensures
        target.0@ == object_name(stored@.recorded_at, stored@.incident_id),
        target.1@ == upload_url(target.0@),
{
    let date = stored.recorded_at.date();
    let mut name = if date.0 < 0 {
        joined("-", padded_decimal_text((-(date.0 as i64)) as u64, 3).as_str())
    } else {
        padded_decimal_text(date.0 as u64, 4)
    };
    name.append("/");
    name.append(padded_decimal_text(date.1 as u64, 2).as_str());
    name.append("/");
    name.append(padded_decimal_text(date.2 as u64, 2).as_str());
    name.append("/");
    name.append(stored.incident_id.as_str());
    name.append(".json");
    let url = joined(
        "https://storage.googleapis.com/upload/storage/v1/b/quarterframe-freeplay-incidents/o?uploadType=media&name=",
        percent_encode(name.as_str()).as_str(),
    );
    (name, url)
}

// What the service notices

/// A named text.
pub open spec fn text_detail(name: Seq<char>, value: Seq<char>) -> DetailModel {
    DetailModel { name, value: DetailValueModel::Text(value) }
}

/// A named number.
pub open spec fn number_detail(name: Seq<char>, value: int) -> DetailModel {
    DetailModel { name, value: DetailValueModel::Number(value as i64) }
}

/// A named flag.
pub open spec fn flag_detail(name: Seq<char>, value: bool) -> DetailModel {
    DetailModel { name, value: DetailValueModel::Flag(value) }
}

fn text_named(name: &str, value: &str) -> (d: Detail)
    ensures
        d@ == text_detail(name@, value@),
{
    Detail { name: name.to_string(), value: DetailValue::Text(value.to_string()) }
}

fn number_named(name: &str, value: i64) -> (d: Detail)
    ensures
        d@ == number_detail(name@, value as int),
{
    Detail { name: name.to_string(), value: DetailValue::Number(value) }
}

fn flag_named(name: &str, value: bool) -> (d: Detail)
    ensures
        d@ == flag_detail(name@, value),
{
    Detail { name: name.to_string(), value: DetailValue::Flag(value) }
}

/// The name of a role.
pub open spec fn role_name(role: PlayerRole) -> Seq<char> {
    match role {
        PlayerRole::Host => "Host"@,
        PlayerRole::Join => "Join"@,
    }
}

/// A session that was matched and ran out without a result.
pub open spec fn matched_no_result(e: QueueEntryModel, now: Timestamp) -> ServerIncidentModel {
    let info = e.match_info->0;
    ServerIncidentModel {
        kind: "matched_no_result"@,
        summary: "Match "@ + info.room_id + " between "@ + e.username + " and "@ + info.username
            + " reaped after "@ + signed_decimal(elapsed_secs(now, e.queued_at))
            + "s with no result"@,
        room_id: info.room_id,
        session_ids: seq![e.session_id],
        usernames: seq![e.username, info.username],
        details: seq![
            text_detail("role"@, role_name(info.role)),
            text_detail("peer_endpoint"@, info.peer_endpoint),
            number_detail("punch_at_ms"@, info.punch_at_ms as int),
            flag_detail("had_turn_creds"@, info.turn is Some),
            text_detail("rom_hash"@, e.rom_hash),
            text_detail("app_version"@, e.app_version),
            text_detail("queued_at"@, rfc3339_at(e.queued_at)),
            text_detail("reaped_at"@, rfc3339_at(now)),
        ],
    }
}

/// A session that ran out without an opponent.
pub open spec fn lfg_no_pair(e: QueueEntryModel, now: Timestamp) -> ServerIncidentModel {
    ServerIncidentModel {
        kind: "lfg_no_pair"@,
        summary: e.username + " sat in queue "@ + signed_decimal(elapsed_secs(now, e.queued_at))
            + "s without finding a partner (rom="@ + e.rom_hash + ", app="@ + e.app_version
            + ")"@,
        room_id: Seq::empty(),
        session_ids: seq![e.session_id],
        usernames: seq![e.username],
        details: seq![
            text_detail("rom_hash"@, e.rom_hash),
            text_detail("app_version"@, e.app_version),
            text_detail("stun_endpoint"@, e.stun_endpoint),
            text_detail("queued_at"@, rfc3339_at(e.queued_at)),
            text_detail("reaped_at"@, rfc3339_at(now)),
        ],
    }
}

/// The incident of a session that was matched and ran out without a result.
pub fn note_no_result(e: &QueueEntry, now: Timestamp) -> (incident: ServerIncident)
    requires
        e@.match_info is Some,
    ensures
        incident@ == matched_no_result(e@, now),
{
    let Some(info) = &e.match_info else {
        return note_no_pair(e, now);
    };
    let mut summary = joined("Match ", info.room_id.as_str());
    summary.append(" between ");
    summary.append(e.username.as_str());
    summary.append(" and ");
    summary.append(info.username.as_str());
    summary.append(" reaped after ");
    summary.append(signed_decimal_text(now.secs_since(e.queued_at)).as_str());
    summary.append("s with no result");
    let role = match info.role {
        PlayerRole::Host => "Host",
        PlayerRole::Join => "Join",
    };
    let incident = ServerIncident {
        kind: "matched_no_result".to_string(),
        summary,
        room_id: info.room_id.clone(),
        session_ids: vec![e.session_id.clone()],
        usernames: vec![e.username.clone(), info.username.clone()],
        details: vec![
            text_named("role", role),
            text_named("peer_endpoint", info.peer_endpoint.as_str()),
            number_named("punch_at_ms", info.punch_at_ms),
            flag_named("had_turn_creds", info.turn.is_some()),
            text_named("rom_hash", e.rom_hash.as_str()),
            text_named("app_version", e.app_version.as_str()),
            text_named("queued_at", e.queued_at.rfc3339().as_str()),
            text_named("reaped_at", now.rfc3339().as_str()),
        ],
    };
    proof {
        let model = matched_no_result(e@, now);
        assert(incident@.session_ids == model.session_ids);
        assert(incident@.usernames == model.usernames);
        assert(incident@.details == model.details);
    }
    incident
}

/// The incident of a session that ran out without an opponent.
pub fn note_no_pair(e: &QueueEntry, now: Timestamp) -> (incident: ServerIncident)
    ensures
        incident@ == lfg_no_pair(e@, now),
{
    let mut summary = joined(e.username.as_str(), " sat in queue ");
    summary.append(signed_decimal_text(now.secs_since(e.queued_at)).as_str());
    summary.append("s without finding a partner (rom=");
    summary.append(e.rom_hash.as_str());
    summary.append(", app=");
    summary.append(e.app_version.as_str());
    summary.append(")");
    let incident = ServerIncident {
        kind: "lfg_no_pair".to_string(),
        summary,
        room_id: String::new(),
        session_ids: vec![e.session_id.clone()],
        usernames: vec![e.username.clone()],
        details: vec![
            text_named("rom_hash", e.rom_hash.as_str()),
            text_named("app_version", e.app_version.as_str()),
            text_named("stun_endpoint", e.stun_endpoint.as_str()),
            text_named("queued_at", e.queued_at.rfc3339().as_str()),
            text_named("reaped_at", now.rfc3339().as_str()),
        ],
    };
    proof {
        let model = lfg_no_pair(e@, now);
        assert(incident@.session_ids == model.session_ids);
        assert(incident@.usernames == model.usernames);
        assert(incident@.details == model.details);
    }
    incident
}

/// `a-b`.
pub open spec fn score(p1: u16, p2: u16) -> Seq<char> {
    decimal(p1 as nat) + "-"@ + decimal(p2 as nat)
}

/// Two players reported different scores of one game.
pub open spec fn score_mismatch(
    first: PendingResultModel,
    reporter: QueueEntryModel,
    result_id: Seq<char>,
    match_index: u32,
    p1_score: u16,
    p2_score: u16,
    session_id: Seq<char>,
) -> ServerIncidentModel {
    ServerIncidentModel {
        kind: "score_mismatch"@,
        summary: first.reporter_discord_id + " reported "@ + score(first.p1_score, first.p2_score)
            + "; "@ + reporter.discord_id + " reported "@ + score(p1_score, p2_score),
        room_id: reporter.match_info->0.room_id,
        session_ids: seq![session_id],
        usernames: seq![reporter.username],
        details: seq![
            text_detail("result_id"@, result_id),
            number_detail("match_index"@, match_index as int),
            text_detail("first_reporter_discord_id"@, first.reporter_discord_id),
            number_detail("first_reporter_p1"@, first.p1_score as int),
            number_detail("first_reporter_p2"@, first.p2_score as int),
            text_detail("second_reporter_discord_id"@, reporter.discord_id),
            number_detail("second_reporter_p1"@, p1_score as int),
            number_detail("second_reporter_p2"@, p2_score as int),
            text_detail("first_reported_at"@, rfc3339_at(first.reported_at)),
            text_detail("rom_hash"@, reporter.rom_hash),
        ],
    }
}

fn score_text(p1: u16, p2: u16) -> (s: String)
    ensures
        s@ == score(p1, p2),
{
    let mut s = decimal_text(p1 as u64);
    s.append("-");
    s.append(decimal_text(p2 as u64).as_str());
    s
}

/// The incident of two reports of one game that differ.
pub fn note_mismatch(
    first: &PendingResult,
    reporter: &QueueEntry,
    result_id: &str,
    match_index: u32,
    p1_score: u16,
    p2_score: u16,
    session_id: &str,
) -> (incident: ServerIncident)
    requires
        reporter@.match_info is Some,
    ensures
        incident@ == score_mismatch(
            first@,
            reporter@,
            result_id@,
            match_index,
            p1_score,
            p2_score,
            session_id@,
        ),
{
    let mut summary = joined(first.reporter_discord_id.as_str(), " reported ");
    summary.append(score_text(first.p1_score, first.p2_score).as_str());
    summary.append("; ");
    summary.append(reporter.discord_id.as_str());
    summary.append(" reported ");
    summary.append(score_text(p1_score, p2_score).as_str());
    let room_id = match &reporter.match_info {
        Some(info) => info.room_id.clone(),
        None => String::new(),
    };
    let incident = ServerIncident {
        kind: "score_mismatch".to_string(),
        summary,
        room_id,
        session_ids: vec![session_id.to_string()],
        usernames: vec![reporter.username.clone()],
        details: vec![
            text_named("result_id", result_id),
            number_named("match_index", match_index as i64),
            text_named("first_reporter_discord_id", first.reporter_discord_id.as_str()),
            number_named("first_reporter_p1", first.p1_score as i64),
            number_named("first_reporter_p2", first.p2_score as i64),
            text_named("second_reporter_discord_id", reporter.discord_id.as_str()),
            number_named("second_reporter_p1", p1_score as i64),
            number_named("second_reporter_p2", p2_score as i64),
            text_named("first_reported_at", first.reported_at.rfc3339().as_str()),
            text_named("rom_hash", reporter.rom_hash.as_str()),
        ],
    };
    proof {
        let model = score_mismatch(
            first@,
            reporter@,
            result_id@,
            match_index,
            p1_score,
            p2_score,
            session_id@,
        );
        assert(incident@.session_ids == model.session_ids);
        assert(incident@.usernames == model.usernames);
        assert(incident@.details == model.details);
    }
    incident
}

} // verus!
