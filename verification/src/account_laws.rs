//! Who players are and what the service tells the outside: logins and tokens,
//! configuration, announcements, refusals and records of incidents.

use vstd::prelude::*;
use vstd::utf8::encode_utf8;
use crate::auth::{
    answers_discord, answers_guest, guest_claims, login_started, login_url, nonce_check,
    nonce_refusal, nonce_used, signed_claims, token_fields, token_refusal, token_refused,
    token_text,
};
use crate::config::{config_of, relay_configured, ConfigModel, EnvVarsModel};
use crate::digest::sha256;
use crate::discord::{announces, notice_text, NoticeModel, WebhookPost};
use crate::error::{description_of, shown_message, status_of, AppError, AppErrorModel};
use crate::incidents::{
    client_incident, fitting_tail, object_name, server_incident, tail_fits, truncated, upload_url,
    IncidentRequestModel, PayloadModel, ServerIncidentModel,
};
use crate::models::{
    ClaimsModel, DiscordUserModel, GuestAuthRequestModel, GuestAuthResponseModel, OAuthStateModel,
};
use crate::names::{clean_email, clean_username};
use crate::pairing_laws::of_a_clock;
use crate::presence::known_as;
use crate::state::StateModel;
use crate::text::decimal;
use crate::time::Timestamp;
use crate::turn::hex;
use crate::url::percent_text;

verus! {

// Guests

/// A guest is known by the name they chose, once it is clean, for thirty days.
/// Who they are depends on the best thing they gave: an address that looks like
/// one, or else their device, or else the name.
pub proof fn guests_are_known_by_what_they_give(req: GuestAuthRequestModel, now: Timestamp)
    requires
        of_a_clock(now),
    ensures
        ({
            let res = guest_claims(req, now);
            let email = match req.email {
                Some(raw) => clean_email(raw),
                None => None,
            };
            let device = req.device_id is Some && req.device_id->0.len() > 0;
            &&& res is Ok <==> clean_username(req.username) is Some
            &&& res is Err ==> res->Err_0 == AppErrorModel::BadRequest(
                "Username must be 2-24 letters/numbers"@,
            )
            &&& res matches Ok(claims) ==> {
                &&& Some(claims.username) == clean_username(req.username)
                &&& claims.email == email
                &&& claims.exp == (now.nanos as int / 1_000_000_000 + 30 * 24 * 3600) as usize
                &&& email is Some ==> claims.sub == "guest-email:"@ + hex(
                    sha256(encode_utf8(email->0)),
                )
                &&& email is None && device ==> claims.sub == "guest-device:"@ + hex(
                    sha256(encode_utf8(req.device_id->0)),
                )
                &&& email is None && !device ==> claims.sub == "guest-name:"@ + hex(
                    sha256(encode_utf8(claims.username)),
                )
            }
        }),
{
}

/// A guest's answer has the name and the end of the token, and the token, when it
/// is read, says the same of them.
pub proof fn guests_get_a_token_of_their_own(
    answer: Result<GuestAuthResponseModel, AppErrorModel>,
    config: ConfigModel,
    req: GuestAuthRequestModel,
    now: Timestamp,
)
    requires
        answers_guest(answer, config, req, now),
        answer is Ok,
    ensures
        ({
            let told = answer->Ok_0;
            let read = signed_claims(told.token, config.jwt_secret);
            &&& guest_claims(req, now) is Ok
            &&& read == Some(guest_claims(req, now)->Ok_0)
            &&& told.username == read->0.username && told.expires_at == read->0.exp
        }),
{
}

/// A guest whose name cannot be used is told so.
pub proof fn guests_without_a_name_are_refused(
    answer: Result<GuestAuthResponseModel, AppErrorModel>,
    config: ConfigModel,
    req: GuestAuthRequestModel,
    now: Timestamp,
)
    requires
        answers_guest(answer, config, req, now),
        clean_username(req.username) is None,
    ensures
        answer == Err::<GuestAuthResponseModel, _>(
            AppErrorModel::BadRequest("Username must be 2-24 letters/numbers"@),
        ),
{
}

// Discord

/// A Discord user is known by their id and name for a day. The browser is sent
/// back to the client with a token that says so.
pub proof fn discord_users_get_a_token_for_a_day(
    answer: Result<Seq<char>, AppErrorModel>,
    config: ConfigModel,
    user: DiscordUserModel,
    now: Timestamp,
)
    requires
        of_a_clock(now),
        answers_discord(answer, config, user, now),
    ensures
        ({
            let exp = (now.nanos as int / 1_000_000_000 + 24 * 3600) as usize;
            let text = token_text(user.id, user.username, None, exp as u64, config.jwt_secret);
            &&& answer is Ok <==> text is Some
            &&& answer is Err ==> answer->Err_0 is Internal
            &&& answer is Ok ==> {
                let read = signed_claims(text->0, config.jwt_secret);
                &&& answer->Ok_0 == "http://localhost:19420/auth/callback#token="@ + text->0
                &&& read is Some && read->0.sub == user.id && read->0.username == user.username
                &&& read->0.email is None && read->0.exp == exp
            }
        }),
{
}

/// A login starts at Discord's own address, with this service's id, its address to
/// come back to, and the nonce, which is kept from then on.
pub proof fn logins_start_with_their_nonce(
    s: StateModel,
    config: ConfigModel,
    nonce: Seq<char>,
    now: Timestamp,
)
    ensures
        login_url(config, nonce)
            == "https://discord.com/api/oauth2/authorize?client_id="@ + config.discord_client_id
            + "&redirect_uri="@ + percent_text(config.discord_redirect_uri)
            + "&response_type=code&scope=identify&state="@ + percent_text(nonce),
        login_started(s, nonce, now) == (StateModel {
            oauth_states: s.oauth_states.insert(nonce, OAuthStateModel { issued_at: now }),
            ..s
        }),
{
}

/// A login without a nonce is refused, and so is one whose nonce is not kept; and
/// whatever nonce it came with is used up.
pub proof fn logins_end_with_their_nonce(s: StateModel, nonce: Option<Seq<char>>)
    ensures
        ({
            let refusal = nonce_refusal(nonce_check(s, nonce));
            let after = nonce_used(s, nonce);
            let missing = nonce is None || nonce->0.len() == 0;
            &&& missing ==> refusal == Some(AppErrorModel::Unauthorized("Missing OAuth state"@))
            &&& !missing && !s.oauth_states.contains_key(nonce->0) ==> refusal == Some(
                AppErrorModel::Unauthorized("Unknown OAuth state"@),
            )
            &&& !missing && s.oauth_states.contains_key(nonce->0) ==> refusal is None
            &&& missing ==> after == s
            &&& !missing ==> after == (StateModel {
                oauth_states: s.oauth_states.remove(nonce->0),
                ..s
            })
        }),
{
}

/// A token stands for someone only if it has all four of its parts, each in its
/// place.
pub proof fn tokens_need_all_their_parts(token: Seq<char>, secret: Seq<char>)
    ensures
        ({
            let read = signed_claims(token, secret);
            let f = token_fields(token, secret)->0;
            &&& read is Some ==> {
                &&& token_fields(token, secret) is Some
                &&& f.0 == Some(read->0.sub) && f.1 == Some(read->0.username)
                &&& f.2 == Some(read->0.email) && f.3 is Some && f.3->0 == read->0.exp
            }
            &&& read is None && token_fields(token, secret) is Some ==> f.0 is None || f.1 is None
                || f.2 is None || f.3 is None || f.3->0 > usize::MAX
        }),
{
}

/// A request whose token is refused is told so and why; if the token can be read at
/// all, the reason is that it has run out.
pub proof fn tokens_are_refused_for_cause<T>(
    res: Result<T, AppError>,
    token: Seq<char>,
    secret: Seq<char>,
)
    requires
        token_refused(res, token, secret),
    ensures
        res is Err,
        exists|why: Seq<char>|
            res->Err_0@ == AppErrorModel::Unauthorized(#[trigger] ("Invalid token: "@ + why)),
        signed_claims(token, secret) is Some ==> res->Err_0@ == AppErrorModel::Unauthorized(
            "Invalid token: "@ + "ExpiredSignature"@,
        ),
{
    let why = choose|why: Seq<char>| res->Err_0@ == #[trigger] token_refusal(why);
    assert(res->Err_0@ == AppErrorModel::Unauthorized("Invalid token: "@ + why));
}

/// Whoever looks in with a token is taken for the one whom the token names, and
/// without a token for nobody.
pub proof fn callers_are_known_by_their_token(
    token: Option<Seq<char>>,
    secret: Seq<char>,
    player: Option<ClaimsModel>,
)
    requires
        known_as(token, secret, player),
        player is Some,
    ensures
        token is Some,
        signed_claims(token->0, secret) == player,
{
}

// Configuration

/// Every setting comes from the variable of its own name. Three must be there;
/// the first that is missing is named. Two have defaults.
pub proof fn settings_come_from_their_variables(v: EnvVarsModel)
    ensures
        ({
            let res = config_of(v);
            &&& res is Ok <==> v.discord_client_id is Some && v.discord_client_secret is Some
                && v.jwt_secret is Some
            &&& v.discord_client_id is None ==> res->Err_0 == "DISCORD_CLIENT_ID not set"@
            &&& v.discord_client_id is Some && v.discord_client_secret is None ==> res->Err_0
                == "DISCORD_CLIENT_SECRET not set"@
            &&& v.discord_client_id is Some && v.discord_client_secret is Some
                && v.jwt_secret is None ==> res->Err_0 == "JWT_SECRET not set"@
            &&& res matches Ok(c) ==> {
                &&& Some(c.discord_client_id) == v.discord_client_id
                &&& Some(c.discord_client_secret) == v.discord_client_secret
                &&& Some(c.jwt_secret) == v.jwt_secret
                &&& c.discord_webhook_url == v.discord_webhook_url
                &&& v.discord_redirect_uri is Some ==> Some(c.discord_redirect_uri)
                    == v.discord_redirect_uri
                &&& v.discord_redirect_uri is None ==> c.discord_redirect_uri
                    == "http://localhost:8080/auth/discord/callback"@
                &&& c.turn_server_ip == v.turn_server_ip
                &&& c.turn_shared_secret == v.turn_shared_secret
                &&& v.turn_realm is Some ==> Some(c.turn_realm) == v.turn_realm
                &&& v.turn_realm is None ==> c.turn_realm == "example.com"@
                &&& c.stats_service_url == v.stats_service_url
                &&& c.stats_api_key == v.stats_api_key
                &&& c.github_issues_repo == v.github_issues_repo
                &&& c.github_issues_token == v.github_issues_token
                &&& relay_configured(c) <==> v.turn_server_ip is Some && v.turn_shared_secret
                    is Some
            }
        }),
{
}

// Announcements and refusals

/// An announcement names those whom it is about, in their order.
pub proof fn announcements_name_the_players(a: Seq<char>, b: Seq<char>)
    ensures
        notice_text(NoticeModel::Lfg { username: a }) == "🕹️ **"@ + a
            + "** is looking for a match!"@,
        notice_text(NoticeModel::Matched { first: a, second: b }) == "⚡ **"@ + a + "** vs **"@ + b
            + "** — match found!"@,
{
}

/// Announcements are posted by the matchmaker to the webhook, if there is one.
pub proof fn announcements_go_to_the_webhook(
    post: Option<WebhookPost>,
    config: ConfigModel,
    notice: NoticeModel,
)
    requires
        announces(post, config, notice),
    ensures
        post is Some <==> config.discord_webhook_url is Some,
        post matches Some(p) ==> Some(p.url@) == config.discord_webhook_url && p.content@
            == notice_text(notice) && p.username@ == "Matchmaker"@,
{
}

/// A refusal has the HTTP status of its kind and says why, except that what went
/// wrong inside is not told.
pub proof fn refusals_have_their_status(m: Seq<char>)
    ensures
        status_of(AppErrorModel::BadRequest(m)) == 400,
        status_of(AppErrorModel::Unauthorized(m)) == 401,
        status_of(AppErrorModel::NotFound(m)) == 404,
        status_of(AppErrorModel::Internal(m)) == 500,
        shown_message(AppErrorModel::BadRequest(m)) == m,
        shown_message(AppErrorModel::Unauthorized(m)) == m,
        shown_message(AppErrorModel::NotFound(m)) == m,
        shown_message(AppErrorModel::Internal(m)) == "Internal server error"@,
        description_of(AppErrorModel::BadRequest(m)) == "Bad request: "@ + m,
        description_of(AppErrorModel::Unauthorized(m)) == "Unauthorized: "@ + m,
        description_of(AppErrorModel::NotFound(m)) == "Not found: "@ + m,
        description_of(AppErrorModel::Internal(m)) == "Internal error: "@ + m,
{
}

// Incidents

/// Whether a log is kept: whole if it has at most `max` bytes; otherwise its
/// longest end that fits, after a line that counts the bytes that were cut.
pub open spec fn cut_to(log: Seq<char>, out: Seq<char>, max: int) -> bool {
    &&& encode_utf8(log).len() <= max ==> out == log
    &&& encode_utf8(log).len() > max ==> exists|n: int|
        {
            &&& 0 < n <= log.len() && encode_utf8(#[trigger] log.skip(n)).len() <= max
            &&& encode_utf8(log.skip(n - 1)).len() > max
            &&& out == "[truncated "@ + decimal(
                (encode_utf8(log).len() - encode_utf8(log.skip(n)).len()) as nat,
            ) + " bytes from front]\n"@ + log.skip(n)
        }
}

/// Where a log is cut.
proof fn lemma_cut(log: Seq<char>, max: int) -> (n: int)
    requires
        max >= 0,
        encode_utf8(log).len() > max,
    ensures
        0 < n <= log.len(),
        encode_utf8(log.skip(n)).len() <= max,
        encode_utf8(log.skip(n - 1)).len() > max,
        fitting_tail(log, max) == log.skip(n),
    decreases log.len(),
{
    reveal_with_fuel(fitting_tail, 2);
    if log.len() == 0 {
        tail_fits(log, max);
        assert(fitting_tail(log, max) == log);
        1
    } else {
        let rest = log.drop_first();
        assert(log.skip(1) == rest);
        assert(log.skip(0) == log);
        if encode_utf8(rest).len() <= max {
            1
        } else {
            let n = lemma_cut(rest, max);
            assert(rest.skip(n) == log.skip(n + 1));
            assert(rest.skip(n - 1) == log.skip(n));
            n + 1
        }
    }
}

/// A player's account of an incident is kept under their name as they gave it,
/// except that each of the two logs is cut to 256 KiB.
pub proof fn accounts_are_kept_as_given(
    player: ClaimsModel,
    req: IncidentRequestModel,
    incident_id: Seq<char>,
    now: Timestamp,
)
    ensures
        ({
            let kept = client_incident(player, req, incident_id, now);
            &&& kept.incident_id == incident_id && kept.origin == "client"@
            &&& kept.recorded_at == now
            &&& kept.reporter_discord_id == Some(player.sub)
            &&& kept.reporter_username == Some(player.username)
            &&& kept.payload matches PayloadModel::Client(told) && {
                &&& told == (IncidentRequestModel {
                    net_log_tail: told.net_log_tail,
                    ggrs_event_tail: told.ggrs_event_tail,
                    ..req
                })
                &&& cut_to(req.net_log_tail, told.net_log_tail, 262_144)
                &&& cut_to(req.ggrs_event_tail, told.ggrs_event_tail, 262_144)
            }
        }),
{
    if encode_utf8(req.net_log_tail).len() > 262_144 {
        let n = lemma_cut(req.net_log_tail, 262_144);
        let (log, tail) = (req.net_log_tail, req.net_log_tail.skip(n));
        assert(truncated(log, 262_144) == "[truncated "@ + decimal(
            (encode_utf8(log).len() - encode_utf8(tail).len()) as nat,
        ) + " bytes from front]\n"@ + tail);
    }
    if encode_utf8(req.ggrs_event_tail).len() > 262_144 {
        let n = lemma_cut(req.ggrs_event_tail, 262_144);
        let (log, tail) = (req.ggrs_event_tail, req.ggrs_event_tail.skip(n));
        assert(truncated(log, 262_144) == "[truncated "@ + decimal(
            (encode_utf8(log).len() - encode_utf8(tail).len()) as nat,
        ) + " bytes from front]\n"@ + tail);
    }
}

/// What the service notices itself is kept as it was noticed, under nobody's name.
pub proof fn notes_are_kept_as_made(
    noted: ServerIncidentModel,
    incident_id: Seq<char>,
    now: Timestamp,
)
    ensures
        ({
            let kept = server_incident(noted, incident_id, now);
            &&& kept.incident_id == incident_id && kept.origin == "server"@
            &&& kept.recorded_at == now
            &&& kept.reporter_discord_id is None && kept.reporter_username is None
            &&& kept.payload == PayloadModel::Server(noted)
        }),
{
}

/// A record is uploaded under its id, as the object of that name in the bucket for
/// incidents, with the name made fit for a query.
pub proof fn records_are_uploaded_under_their_id(at: Timestamp, incident_id: Seq<char>)
    ensures
        ({
            let name = object_name(at, incident_id);
            let file = incident_id + ".json"@;
            &&& name.len() >= file.len() && name.skip(name.len() - file.len()) == file
            &&& upload_url(name)
                == "https://storage.googleapis.com/upload/storage/v1/b/quarterframe-freeplay-incidents/o?uploadType=media&name="@
                + percent_text(name)
        }),
{
    let name = object_name(at, incident_id);
    let file = incident_id + ".json"@;
    assert(name.skip(name.len() - file.len()) =~= file);
}

} // verus!
