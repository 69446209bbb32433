//! Logins and bearer tokens.

use jsonwebtoken::errors::ErrorKind;
use vstd::prelude::*;
use vstd::utf8::encode_utf8;
use crate::config::{Config, ConfigModel};
use crate::digest::{sha256, sha256_digest};
use crate::error::{outcome, AppError, AppErrorModel};
use crate::ids::{new_uuid, uuid_text};
use crate::models::{
    CallbackParams, Claims, ClaimsModel, DiscordUser, DiscordUserModel, GuestAuthRequest,
    GuestAuthRequestModel, GuestAuthResponse, GuestAuthResponseModel, OAuthState, OAuthStateModel,
};
use crate::names::{clean_email, clean_username, normalize_email, sanitize_username};
use crate::state::{AppState, StateModel};
use crate::table;
use crate::text::joined;
use crate::time::{secs_later, unix_secs, Timestamp};
use crate::turn::{hex, hex_encode};
use crate::url::{percent_encode, percent_text};

verus! {

/// How long a guest's token is good for: 30 days.
pub const GUEST_TOKEN_SECS: u32 = 2_592_000;

/// How long a Discord user's token is good for: 24 hours.
pub const DISCORD_TOKEN_SECS: u32 = 86_400;

// Tokens

/// `jsonwebtoken::errors::Error`.
#[verifier::external_type_specification]
#[verifier::external_body]
pub struct ExTokenError(jsonwebtoken::errors::Error);

/// The claims `sub`, `username`, `email` and `exp` of a token that is good with
/// `secret`, its expiry aside, each absent where the token does not hold it in
/// its proper form: a text; for `email` a text or nothing; for `exp` a whole
/// number. `None` for anything that would be refused had it not expired.
pub uninterp spec fn token_fields(token: Seq<char>, secret: Seq<char>) -> Option<
    (Option<Seq<char>>, Option<Seq<char>>, Option<Option<Seq<char>>>, Option<u64>),
>;

/// The token that is signed with `secret` for these claims; `None` where they
/// cannot be signed.
pub uninterp spec fn token_text(
    sub: Seq<char>,
    username: Seq<char>,
    email: Option<Seq<char>>,
    exp: u64,
    secret: Seq<char>,
) -> Option<Seq<char>>;

/// `jsonwebtoken::encode` with the default header (HS256): the claims and the
/// secret determine the token, and whether there is one. It is accepted with the
/// same secret until it expires, and holds the claims that went in, written in
/// the order of the arguments.
#[verifier::external_body]
fn encode_token(sub: &str, username: &str, email: &Option<String>, exp: u64, secret: &str) -> (res:
    Result<String, jsonwebtoken::errors::Error>)
    ensures
        match res {
            Ok(token) => token_text(sub@, username@, email.deep_view(), exp, secret@) == Some(
                token@,
            ) && token_fields(token@, secret@) == Some(
                (Some(sub@), Some(username@), Some(email.deep_view()), Some(exp)),
            ),
            Err(_) => token_text(sub@, username@, email.deep_view(), exp, secret@) is None,
        },
{
    let mut claims = serde_json::Map::new();
    claims.insert("sub".to_string(), serde_json::Value::from(sub));
    claims.insert("username".to_string(), serde_json::Value::from(username));
    claims.insert("email".to_string(), serde_json::Value::from(email.clone()));
    claims.insert("exp".to_string(), serde_json::Value::from(exp));
    let key = jsonwebtoken::EncodingKey::from_secret(secret.as_bytes());
    jsonwebtoken::encode(&jsonwebtoken::Header::default(), &claims, &key)
}

/// The fields of a token, as [`decode_token`] hands them out.
pub type TokenFields = (Option<String>, Option<String>, Option<Option<String>>, Option<u64>);

/// `jsonwebtoken::decode` with the default validation (HS256, not expired): the
/// token and the secret determine the claims, and every failure but the one for
/// expiry, which the first half of the error tells apart. Whether a token has
/// expired depends on the clock; nothing is said of that. The clock is taken to
/// be past the first minute of 1970. The claims are read as a JSON value: of a
/// user name or an address that is written twice, the last one counts.
#[verifier::external_body]
fn decode_token(token: &str, secret: &str) -> (res: Result<
    TokenFields,
    (bool, jsonwebtoken::errors::Error),
>)
    ensures
        match res {
            Ok(f) => token_fields(token@, secret@) == Some(
                (f.0.deep_view(), f.1.deep_view(), f.2.deep_view(), f.3),
            ),
            Err((expired, _)) => !expired ==> token_fields(token@, secret@) is None,
        },
{
    let key = jsonwebtoken::DecodingKey::from_secret(secret.as_bytes());
    let rules = jsonwebtoken::Validation::default();
    let claims = jsonwebtoken::decode::<serde_json::Value>(token, &key, &rules)
        .map_err(|e| (matches!(e.kind(), ErrorKind::ExpiredSignature), e))?
        .claims;
    Ok((
        claims["sub"].as_str().map(String::from),
        claims["username"].as_str().map(String::from),
        match &claims["email"] {
            serde_json::Value::Null => Some(None),
            serde_json::Value::String(email) => Some(Some(email.clone())),
            _ => None,
        },
        claims["exp"].as_u64(),
    ))
}

/// The `Display` of `jsonwebtoken::errors::Error`. Nothing is said of the
/// words.
#[verifier::external_body]
fn token_error_text(e: &jsonwebtoken::errors::Error) -> String {
    e.to_string()
}

/// The claims that a token's fields make up: all are required, though the
/// address may be left empty.
pub open spec fn claims_of_fields(
    f: (Option<Seq<char>>, Option<Seq<char>>, Option<Option<Seq<char>>>, Option<u64>),
) -> Option<ClaimsModel> {
    if f.0 is Some && f.1 is Some && f.2 is Some && f.3 is Some && f.3->0 <= usize::MAX {
        Some(ClaimsModel { sub: f.0->0, username: f.1->0, email: f.2->0, exp: f.3->0 as usize })
    } else {
        None
    }
}

/// Whose token this is: its claims, if it is signed with `secret` and says who
/// its holder is.
pub open spec fn signed_claims(token: Seq<char>, secret: Seq<char>) -> Option<ClaimsModel> {
    match token_fields(token, secret) {
        Some(f) => claims_of_fields(f),
        None => None,
    }
}

/// The refusal of a token.
pub open spec fn token_refusal(why: Seq<char>) -> AppErrorModel {
    AppErrorModel::Unauthorized("Invalid token: "@ + why)
}

/// Whether a failure is the refusal of a token.
pub open spec fn is_token_refusal(e: AppErrorModel) -> bool {
    exists|why: Seq<char>| e == #[trigger] token_refusal(why)
}

/// The refusal of a token that has expired.
pub open spec fn expired_refusal() -> AppErrorModel {
    token_refusal("ExpiredSignature"@)
}

/// Whether a request failed for its token. One that is signed with `secret` and
/// says who its holder is fails for nothing but its expiry.
pub open spec fn token_refused<T>(
    res: Result<T, AppError>,
    token: Seq<char>,
    secret: Seq<char>,
) -> bool {
    &&& res is Err
    &&& is_token_refusal(res->Err_0@)
    &&& signed_claims(token, secret) is Some ==> res->Err_0@ == expired_refusal()
}

/// The claims that a decoded token makes up, or the refusal of it.
pub fn claims_from(decoded: Result<TokenFields, String>) -> (res: Result<Claims, AppError>)
    ensures
        match decoded {
            Ok(f) => match claims_of_fields(
                (f.0.deep_view(), f.1.deep_view(), f.2.deep_view(), f.3),
            ) {
                Some(claims) => outcome(res) == Ok::<ClaimsModel, AppErrorModel>(claims),
                None => outcome(res) == Err::<ClaimsModel, AppErrorModel>(
                    token_refusal("JSON error: claims are missing or malformed"@),
                ),
            },
            Err(why) => outcome(res) == Err::<ClaimsModel, AppErrorModel>(token_refusal(why@)),
        },
{
    match decoded {
        Ok((Some(sub), Some(username), Some(email), Some(exp))) if exp <= usize::MAX as u64 => Ok(
            Claims { sub, username, email, exp: exp as usize },
        ),
        Ok(_) => Err(
            AppError::Unauthorized(
                joined("Invalid token: ", "JSON error: claims are missing or malformed"),
            ),
        ),
        Err(why) => Err(AppError::Unauthorized(joined("Invalid token: ", why.as_str()))),
    }
}

/// What the check of a token may come to: its claims, or a refusal.
pub open spec fn checked(
    res: Result<ClaimsModel, AppErrorModel>,
    token: Seq<char>,
    secret: Seq<char>,
) -> bool {
    match res {
        Ok(claims) => signed_claims(token, secret) == Some(claims),
        Err(e) => is_token_refusal(e) && (signed_claims(token, secret) is Some ==> e
            == expired_refusal()),
    }
}

/// Whose token this is. A token is refused unless it is signed with `secret`,
/// has not expired and says who its holder is.
pub fn verify_token(token: &str, secret: &str) -> (res: Result<Claims, AppError>)
    ensures
        checked(outcome(res), token@, secret@),
{
    match decode_token(token, secret) {
        Ok(fields) => {
            let res = claims_from(Ok(fields));
            proof {
                let why = "JSON error: claims are missing or malformed"@;
                assert(res matches Err(e) ==> e@ == token_refusal(why));
            }
            res
        },
        Err((expired, e)) => {
            let why = if expired {
                "ExpiredSignature".to_string()
            } else {
                token_error_text(&e)
            };
            let res = claims_from(Err(why));
            proof {
                assert(res->Err_0@ == token_refusal(why@));
            }
            res
        },
    }
}

/// The token that is signed for the holder of `claims`, if they can be signed.
pub open spec fn issued(claims: ClaimsModel, secret: Seq<char>) -> Option<Seq<char>> {
    token_text(claims.sub, claims.username, claims.email, claims.exp as u64, secret)
}

/// Signs a token for the holder of `claims`.
pub fn issue_token(claims: &Claims, secret: &str) -> (res: Result<String, AppError>)
    ensures
        match res {
            Ok(token) => issued(claims@, secret@) == Some(token@) && signed_claims(token@, secret@)
                == Some(claims@),
            Err(e) => issued(claims@, secret@) is None && e@ is Internal,
        },
{
    match encode_token(
        claims.sub.as_str(),
        claims.username.as_str(),
        &claims.email,
        claims.exp as u64,
        secret,
    ) {
        Ok(token) => Ok(token),
        Err(e) => Err(AppError::Internal(token_error_text(&e))),
    }
}

/// A token gives back what it was signed for: it is never taken for another
/// player's, and it is refused only once it has expired.
pub proof fn tokens_give_back_their_claims(
    token: Seq<char>,
    secret: Seq<char>,
    signed_for: ClaimsModel,
    res: Result<ClaimsModel, AppErrorModel>,
)
    requires
        signed_claims(token, secret) == Some(signed_for),
        checked(res, token, secret),
    ensures
        res == Ok::<ClaimsModel, AppErrorModel>(signed_for) || res == Err::<
            ClaimsModel,
            AppErrorModel,
        >(expired_refusal()),
{
}

// Guests

/// The lower-case hexadecimal SHA-256 digest of some bytes.
pub fn sha256_hex(bytes: &[u8]) -> (s: String)
    ensures
        s@ == hex(sha256(bytes@)),
{
    hex_encode(sha256_digest(bytes).as_slice())
}

/// Whether a text is there and not empty.
pub open spec fn given(s: Option<Seq<char>>) -> bool {
    s is Some && s->0.len() > 0
}

/// A guest's e-mail address, where one was given that looks like one.
pub open spec fn guest_email(req: GuestAuthRequestModel) -> Option<Seq<char>> {
    match req.email {
        Some(raw) => clean_email(raw),
        None => None,
    }
}

/// A guest's player id: a digest of the e-mail address, else of the device,
/// else of the name.
pub open spec fn guest_id(req: GuestAuthRequestModel, username: Seq<char>) -> Seq<char> {
    let email = guest_email(req);
    if email is Some {
        "guest-email:"@ + hex(sha256(encode_utf8(email->0)))
    } else if given(req.device_id) {
        "guest-device:"@ + hex(sha256(encode_utf8(req.device_id->0)))
    } else {
        "guest-name:"@ + hex(sha256(encode_utf8(username)))
    }
}

/// The expiry, as a token states it, of what is issued at `now` for `secs`
/// seconds.
pub open spec fn expiry_of(now: Timestamp, secs: int) -> usize {
    unix_secs(secs_later(now, secs)) as i64 as usize
}

/// A guest's claims.
pub open spec fn guest_claims(req: GuestAuthRequestModel, now: Timestamp) -> Result<
    ClaimsModel,
    AppErrorModel,
> {
    match clean_username(req.username) {
        Some(username) => Ok(
            ClaimsModel {
                sub: guest_id(req, username),
                username,
                email: guest_email(req),
                exp: expiry_of(now, GUEST_TOKEN_SECS as int),
            },
        ),
        None => Err(AppErrorModel::BadRequest("Username must be 2-24 letters/numbers"@)),
    }
}

/// A guest's claims at a point in time.
pub fn guest_claims_at(req: &GuestAuthRequest, now: Timestamp) -> (res: Result<Claims, AppError>)
    ensures
        outcome(res) == guest_claims(req@, now),
{
    let Some(username) = sanitize_username(req.username.as_str()) else {
        return Err(AppError::bad_request("Username must be 2-24 letters/numbers"));
    };
    let email = match &req.email {
        Some(raw) => normalize_email(raw.as_str()),
        None => None,
    };
    let sub = match &email {
        Some(address) => joined("guest-email:", sha256_hex(address.as_str().as_bytes()).as_str()),
        None => match &req.device_id {
            Some(device) if !device.as_str().is_empty() => joined(
                "guest-device:",
                sha256_hex(device.as_str().as_bytes()).as_str(),
            ),
            _ => joined("guest-name:", sha256_hex(username.as_str().as_bytes()).as_str()),
        },
    };
    let exp = now.later(GUEST_TOKEN_SECS).unix_secs() as usize;
    Ok(Claims { sub, username, email, exp })
}

/// What a guest who logs in at `now` is answered.
pub open spec fn answers_guest(
    answer: Result<GuestAuthResponseModel, AppErrorModel>,
    config: ConfigModel,
    req: GuestAuthRequestModel,
    now: Timestamp,
) -> bool {
    match guest_claims(req, now) {
        Ok(claims) => match issued(claims, config.jwt_secret) {
            Some(token) => answer == Ok::<GuestAuthResponseModel, AppErrorModel>(
                guest_answer(claims, token),
            ) && signed_claims(token, config.jwt_secret) == Some(claims),
            None => answer matches Err(e) && e is Internal,
        },
        Err(e) => answer == Err::<GuestAuthResponseModel, AppErrorModel>(e),
    }
}

/// What a guest is answered who holds a token now.
pub open spec fn guest_answer(claims: ClaimsModel, token: Seq<char>) -> GuestAuthResponseModel {
    GuestAuthResponseModel { token, username: claims.username, expires_at: claims.exp }
}

/// Answers a guest who holds a token now.
pub fn answer_guest(claims: Claims, token: String) -> (answer: GuestAuthResponse)
    ensures
        answer@ == guest_answer(claims@, token@),
{
    GuestAuthResponse { token, username: claims.username, expires_at: claims.exp }
}

/// Logs a guest in. The answer holds a token for the claims that the guest's
/// request gives at the time.
pub fn guest_login(config: &Config, req: &GuestAuthRequest) -> (res: Result<
    GuestAuthResponse,
    AppError,
>)
    ensures
        exists|now: Timestamp|
            now.nanos >= 0 && #[trigger] answers_guest(outcome(res), config@, req@, now),
{
    let now = Timestamp::now();
    let res = match guest_claims_at(req, now) {
        Ok(claims) => match issue_token(&claims, config.jwt_secret.as_str()) {
            Ok(token) => Ok(answer_guest(claims, token)),
            Err(e) => Err(e),
        },
        Err(e) => Err(e),
    };
    proof {
        assert(answers_guest(outcome(res), config@, req@, now));
    }
    res
}

// Discord

/// Where a login starts.
pub open spec fn login_url(config: ConfigModel, nonce: Seq<char>) -> Seq<char> {
    "https://discord.com/api/oauth2/authorize?client_id="@ + config.discord_client_id
        + "&redirect_uri="@ + percent_text(config.discord_redirect_uri)
        + "&response_type=code&scope=identify&state="@ + percent_text(nonce)
}

/// The state once a login has started.
pub open spec fn login_started(s: StateModel, nonce: Seq<char>, now: Timestamp) -> StateModel {
    StateModel {
        oauth_states: s.oauth_states.insert(nonce, OAuthStateModel { issued_at: now }),
        ..s
    }
}

/// Starts a Discord login with a given nonce; the answer is where to send the
/// player.
pub fn discord_login_at(state: &mut AppState, nonce: String, now: Timestamp) -> (url: String)
    ensures
        final(state)@ == login_started(old(state)@, nonce@, now),
        url@ == login_url(old(state)@.config, nonce@),
{
    let mut url = joined(
        "https://discord.com/api/oauth2/authorize?client_id=",
        state.config.discord_client_id.as_str(),
    );
    url.append("&redirect_uri=");
    url.append(percent_encode(state.config.discord_redirect_uri.as_str()).as_str());
    url.append("&response_type=code&scope=identify&state=");
    url.append(percent_encode(nonce.as_str()).as_str());
    table::insert(&mut state.oauth_states, nonce, OAuthState { issued_at: now });
    url
}

/// Starts a Discord login: a fresh nonce is kept, and goes along to Discord and
/// back.
pub fn discord_login(state: &mut AppState) -> (url: String)
    ensures
        exists|nonce: Seq<char>, now: Timestamp|
            uuid_text(nonce) && now.nanos >= 0 && final(state)@ == #[trigger] login_started(
                old(state)@,
                nonce,
                now,
            ) && url@ == login_url(old(state)@.config, nonce),
{
    let nonce = new_uuid();
    let now = Timestamp::now();
    let ghost drawn = nonce@;
    let url = discord_login_at(state, nonce, now);
    proof {
        assert(state@ == login_started(old(state)@, drawn, now));
    }
    url
}

/// What the nonce of a returning login was worth.
#[derive(Debug, Clone, Copy, PartialEq, Eq, Structural)]
pub enum NonceCheck {
    /// The login came back without one.
    Missing,
    /// It was not issued here, or is gone by now.
    Unknown,
    /// It was issued here, and is used up now.
    Known,
}

/// What the nonce of a returning login is worth.
pub open spec fn nonce_check(s: StateModel, nonce: Option<Seq<char>>) -> NonceCheck {
    if !given(nonce) {
        NonceCheck::Missing
    } else if s.oauth_states.contains_key(nonce->0) {
        NonceCheck::Known
    } else {
        NonceCheck::Unknown
    }
}

/// The state once the nonce of a returning login is used up.
pub open spec fn nonce_used(s: StateModel, nonce: Option<Seq<char>>) -> StateModel {
    if given(nonce) {
        StateModel { oauth_states: s.oauth_states.remove(nonce->0), ..s }
    } else {
        s
    }
}

/// Why a returning login is refused for its nonce, if it is: the nonce is
/// required, so that nobody can be logged in by a link that another has made.
pub open spec fn nonce_refusal(check: NonceCheck) -> Option<AppErrorModel> {
    match check {
        NonceCheck::Missing => Some(AppErrorModel::Unauthorized("Missing OAuth state"@)),
        NonceCheck::Unknown => Some(AppErrorModel::Unauthorized("Unknown OAuth state"@)),
        NonceCheck::Known => None,
    }
}

/// Refuses a returning login unless its nonce is known.
pub fn require_nonce(check: NonceCheck) -> (res: Result<(), AppError>)
    ensures
        match nonce_refusal(check) {
            Some(e) => outcome(res) == Err::<(), AppErrorModel>(e),
            None => res is Ok,
        },
{
    match check {
        NonceCheck::Missing => Err(AppError::unauthorized("Missing OAuth state")),
        NonceCheck::Unknown => Err(AppError::unauthorized("Unknown OAuth state")),
        NonceCheck::Known => Ok(()),
    }
}

/// Uses up the nonce of a returning login, and tells what it was worth. The
/// login goes on only where it is known: see [`require_nonce`].
pub fn consume_nonce(state: &mut AppState, params: &CallbackParams) -> (check: NonceCheck)
    ensures
        check == nonce_check(old(state)@, params@.state),
        final(state)@ == nonce_used(old(state)@, params@.state),
{
    let nonce = match &params.state {
        Some(nonce) => nonce.as_str(),
        None => "",
    };
    proof {
        reveal_strlit("");
    }
    if nonce.is_empty() {
        NonceCheck::Missing
    } else if table::remove(&mut state.oauth_states, nonce).is_none() {
        NonceCheck::Unknown
    } else {
        NonceCheck::Known
    }
}

/// A Discord user's claims.
pub open spec fn discord_claims(user: DiscordUserModel, now: Timestamp) -> ClaimsModel {
    ClaimsModel {
        sub: user.id,
        username: user.username,
        email: None,
        exp: expiry_of(now, DISCORD_TOKEN_SECS as int),
    }
}

/// Where the player is sent with a token: the desktop client listens there.
pub open spec fn client_redirect(token: Seq<char>) -> Seq<char> {
    "http://localhost:19420/auth/callback#token="@ + token
}

/// A Discord user's claims at a point in time.
pub fn discord_claims_at(user: &DiscordUser, now: Timestamp) -> (claims: Claims)
    ensures
        claims@ == discord_claims(user@, now),
{
    let exp = now.later(DISCORD_TOKEN_SECS).unix_secs() as usize;
    Claims { sub: user.id.clone(), username: user.username.clone(), email: None, exp }
}

/// Where a player is sent who holds a token now.
pub fn redirect_to_client(token: &str) -> (url: String)
    ensures
        url@ == client_redirect(token@),
{
    joined("http://localhost:19420/auth/callback#token=", token)
}

/// What a Discord user who logs in at `now` is answered.
pub open spec fn answers_discord(
    answer: Result<Seq<char>, AppErrorModel>,
    config: ConfigModel,
    user: DiscordUserModel,
    now: Timestamp,
) -> bool {
    let claims = discord_claims(user, now);
    match issued(claims, config.jwt_secret) {
        Some(token) => answer == Ok::<Seq<char>, AppErrorModel>(client_redirect(token))
            && signed_claims(token, config.jwt_secret) == Some(claims),
        None => answer matches Err(e) && e is Internal,
    }
}

/// Finishes a Discord login, once its nonce has been used up and Discord has said
/// who the user is: the answer sends the player to the desktop client with a
/// token. Without a nonce that is known there is no token.
pub fn discord_callback(config: &Config, nonce: NonceCheck, user: &DiscordUser) -> (res: Result<
    String,
    AppError,
>)
    ensures
        match nonce_refusal(nonce) {
            Some(e) => outcome(res) == Err::<Seq<char>, AppErrorModel>(e),
            None => exists|now: Timestamp|
                now.nanos >= 0 && #[trigger] answers_discord(outcome(res), config@, user@, now),
        },
{
    if let Err(e) = require_nonce(nonce) {
        return Err(e);
    }
    let now = Timestamp::now();
    let claims = discord_claims_at(user, now);
    let res = match issue_token(&claims, config.jwt_secret.as_str()) {
        Ok(token) => Ok(redirect_to_client(token.as_str())),
        Err(e) => Err(e),
    };
    proof {
        assert(answers_discord(outcome(res), config@, user@, now));
    }
    res
}

/// Who the caller is.
#[derive(Debug)]
pub struct MeResponse {
    pub discord_id: String,
    pub username: String,
}

/// Tells the caller who they are.
pub fn me(config: &Config, token: &str) -> (res: Result<MeResponse, AppError>)
    ensures
        match res {
            Ok(who) => signed_claims(token@, config@.jwt_secret) matches Some(claims)
                && who.discord_id@ == claims.sub && who.username@ == claims.username,
            Err(_) => token_refused(res, token@, config@.jwt_secret),
        },
{
    match verify_token(token, config.jwt_secret.as_str()) {
        Ok(claims) => Ok(MeResponse { discord_id: claims.sub, username: claims.username }),
        Err(e) => Err(e),
    }
}

} // verus!
