//! Configuration.

use vstd::prelude::*;
use crate::models::copy_opt_text;

verus! {

/// The service's configuration.
#[derive(Debug)]
pub struct Config {
    pub discord_client_id: String,
    pub discord_client_secret: String,
    /// Where match notices are posted, if anywhere.
    pub discord_webhook_url: Option<String>,
    pub discord_redirect_uri: String,
    pub jwt_secret: String,
    /// The relay; it is used only where its secret is set too.
    pub turn_server_ip: Option<String>,
    pub turn_shared_secret: Option<String>,
    pub turn_realm: String,
    /// Where results are forwarded; used only where the key is set too.
    pub stats_service_url: Option<String>,
    pub stats_api_key: Option<String>,
    pub github_issues_repo: Option<String>,
    pub github_issues_token: Option<String>,
}

/// The model of [`Config`].
#[verifier::ext_equal]
pub struct ConfigModel {
    pub discord_client_id: Seq<char>,
    pub discord_client_secret: Seq<char>,
    pub discord_webhook_url: Option<Seq<char>>,
    pub discord_redirect_uri: Seq<char>,
    pub jwt_secret: Seq<char>,
    pub turn_server_ip: Option<Seq<char>>,
    pub turn_shared_secret: Option<Seq<char>>,
    pub turn_realm: Seq<char>,
    pub stats_service_url: Option<Seq<char>>,
    pub stats_api_key: Option<Seq<char>>,
    pub github_issues_repo: Option<Seq<char>>,
    pub github_issues_token: Option<Seq<char>>,
}

impl View for Config {
    type V = ConfigModel;

    open spec fn view(&self) -> ConfigModel {
        ConfigModel {
            discord_client_id: self.discord_client_id@,
            discord_client_secret: self.discord_client_secret@,
            discord_webhook_url: self.discord_webhook_url.deep_view(),
            discord_redirect_uri: self.discord_redirect_uri@,
            jwt_secret: self.jwt_secret@,
            turn_server_ip: self.turn_server_ip.deep_view(),
            turn_shared_secret: self.turn_shared_secret.deep_view(),
            turn_realm: self.turn_realm@,
            stats_service_url: self.stats_service_url.deep_view(),
            stats_api_key: self.stats_api_key.deep_view(),
            github_issues_repo: self.github_issues_repo.deep_view(),
            github_issues_token: self.github_issues_token.deep_view(),
        }
    }
}

impl Clone for Config {
    fn clone(&self) -> (copy: Config)
        ensures
            copy@ == self@,
    {
        Config {
            discord_client_id: self.discord_client_id.clone(),
            discord_client_secret: self.discord_client_secret.clone(),
            discord_webhook_url: copy_opt_text(&self.discord_webhook_url),
            discord_redirect_uri: self.discord_redirect_uri.clone(),
            jwt_secret: self.jwt_secret.clone(),
            turn_server_ip: copy_opt_text(&self.turn_server_ip),
            turn_shared_secret: copy_opt_text(&self.turn_shared_secret),
            turn_realm: self.turn_realm.clone(),
            stats_service_url: copy_opt_text(&self.stats_service_url),
            stats_api_key: copy_opt_text(&self.stats_api_key),
            github_issues_repo: copy_opt_text(&self.github_issues_repo),
            github_issues_token: copy_opt_text(&self.github_issues_token),
        }
    }
}

/// The environment variables that configure the service, each absent where it
/// is not set or is not Unicode.
#[derive(Debug)]
pub struct EnvVars {
    pub discord_client_id: Option<String>,
    pub discord_client_secret: Option<String>,
    pub discord_webhook_url: Option<String>,
    pub discord_redirect_uri: Option<String>,
    pub jwt_secret: Option<String>,
    pub turn_server_ip: Option<String>,
    pub turn_shared_secret: Option<String>,
    pub turn_realm: Option<String>,
    pub stats_service_url: Option<String>,
    pub stats_api_key: Option<String>,
    pub github_issues_repo: Option<String>,
    pub github_issues_token: Option<String>,
}

/// The model of [`EnvVars`].
#[verifier::ext_equal]
pub struct EnvVarsModel {
    pub discord_client_id: Option<Seq<char>>,
    pub discord_client_secret: Option<Seq<char>>,
    pub discord_webhook_url: Option<Seq<char>>,
    pub discord_redirect_uri: Option<Seq<char>>,
    pub jwt_secret: Option<Seq<char>>,
    pub turn_server_ip: Option<Seq<char>>,
    pub turn_shared_secret: Option<Seq<char>>,
    pub turn_realm: Option<Seq<char>>,
    pub stats_service_url: Option<Seq<char>>,
    pub stats_api_key: Option<Seq<char>>,
    pub github_issues_repo: Option<Seq<char>>,
    pub github_issues_token: Option<Seq<char>>,
}

impl View for EnvVars {
    type V = EnvVarsModel;

    open spec fn view(&self) -> EnvVarsModel {
        EnvVarsModel {
            discord_client_id: self.discord_client_id.deep_view(),
            discord_client_secret: self.discord_client_secret.deep_view(),
            discord_webhook_url: self.discord_webhook_url.deep_view(),
            discord_redirect_uri: self.discord_redirect_uri.deep_view(),
            jwt_secret: self.jwt_secret.deep_view(),
            turn_server_ip: self.turn_server_ip.deep_view(),
            turn_shared_secret: self.turn_shared_secret.deep_view(),
            turn_realm: self.turn_realm.deep_view(),
            stats_service_url: self.stats_service_url.deep_view(),
            stats_api_key: self.stats_api_key.deep_view(),
            github_issues_repo: self.github_issues_repo.deep_view(),
            github_issues_token: self.github_issues_token.deep_view(),
        }
    }
}

/// Where Discord returns to in local development.
pub open spec fn default_redirect_uri() -> Seq<char> {
    "http://localhost:8080/auth/discord/callback"@
}

/// The configuration that the variables give: the Discord credentials and the
/// token secret are required, the rest is optional or has a default.
pub open spec fn config_of(vars: EnvVarsModel) -> Result<ConfigModel, Seq<char>> {
    if vars.discord_client_id is None {
        Err("DISCORD_CLIENT_ID not set"@)
    } else if vars.discord_client_secret is None {
        Err("DISCORD_CLIENT_SECRET not set"@)
    } else if vars.jwt_secret is None {
        Err("JWT_SECRET not set"@)
    } else {
        Ok(
            ConfigModel {
                discord_client_id: vars.discord_client_id->0,
                discord_client_secret: vars.discord_client_secret->0,
                discord_webhook_url: vars.discord_webhook_url,
                discord_redirect_uri: match vars.discord_redirect_uri {
                    Some(uri) => uri,
                    None => default_redirect_uri(),
                },
                jwt_secret: vars.jwt_secret->0,
                turn_server_ip: vars.turn_server_ip,
                turn_shared_secret: vars.turn_shared_secret,
                turn_realm: match vars.turn_realm {
                    Some(realm) => realm,
                    None => "example.com"@,
                },
                stats_service_url: vars.stats_service_url,
                stats_api_key: vars.stats_api_key,
                github_issues_repo: vars.github_issues_repo,
                github_issues_token: vars.github_issues_token,
            },
        )
    }
}

/// Whether relay credentials can be issued.
pub open spec fn relay_configured(config: ConfigModel) -> bool {
    config.turn_server_ip is Some && config.turn_shared_secret is Some
}

impl Config {
    /// The configuration that the environment gives, or what it lacks.
    pub fn from_env(vars: EnvVars) -> (res: Result<Config, String>)
        ensures
            match res {
                Ok(config) => config_of(vars@) == Ok::<ConfigModel, Seq<char>>(config@),
                Err(lack) => config_of(vars@) == Err::<ConfigModel, Seq<char>>(lack@),
            },
    {
        let Some(discord_client_id) = vars.discord_client_id else {
            return Err("DISCORD_CLIENT_ID not set".to_string());
        };
        let Some(discord_client_secret) = vars.discord_client_secret else {
            return Err("DISCORD_CLIENT_SECRET not set".to_string());
        };
        let Some(jwt_secret) = vars.jwt_secret else {
            return Err("JWT_SECRET not set".to_string());
        };
        Ok(
            Config {
                discord_client_id,
                discord_client_secret,
                discord_webhook_url: vars.discord_webhook_url,
                discord_redirect_uri: match vars.discord_redirect_uri {
                    Some(uri) => uri,
                    None => "http://localhost:8080/auth/discord/callback".to_string(),
                },
                jwt_secret,
                turn_server_ip: vars.turn_server_ip,
                turn_shared_secret: vars.turn_shared_secret,
                turn_realm: match vars.turn_realm {
                    Some(realm) => realm,
                    None => "example.com".to_string(),
                },
                stats_service_url: vars.stats_service_url,
                stats_api_key: vars.stats_api_key,
                github_issues_repo: vars.github_issues_repo,
                github_issues_token: vars.github_issues_token,
            },
        )
    }

    /// Whether the relay is configured and credentials for it can be issued.
    pub fn turn_enabled(&self) -> (enabled: bool)
        ensures
            enabled == relay_configured(self@),
    {
        self.turn_server_ip.is_some() && self.turn_shared_secret.is_some()
    }
}

} // verus!
