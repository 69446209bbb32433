//! What is announced on Discord.

use vstd::prelude::*;
use crate::config::{Config, ConfigModel};
use crate::models::copy_opt_text;
use crate::text::joined;

verus! {

/// Something worth announcing.
#[derive(Debug)]
pub enum Notice {
    /// A player waits for an opponent.
    Lfg { username: String },
    /// Two players have been matched.
    Matched { first: String, second: String },
}

/// The model of [`Notice`].
#[verifier::ext_equal]
pub enum NoticeModel {
    Lfg { username: Seq<char> },
    Matched { first: Seq<char>, second: Seq<char> },
}

impl View for Notice {
    type V = NoticeModel;

    open spec fn view(&self) -> NoticeModel {
        match self {
            Notice::Lfg { username } => NoticeModel::Lfg { username: username@ },
            Notice::Matched { first, second } => NoticeModel::Matched {
                first: first@,
                second: second@,
            },
        }
    }
}

/// A message for the webhook.
#[derive(Debug)]
pub struct WebhookPost {
    pub url: String,
    pub content: String,
    /// The name that the message is posted under.
    pub username: String,
}

/// What a notice says.
pub open spec fn notice_text(notice: NoticeModel) -> Seq<char> {
    match notice {
        NoticeModel::Lfg { username } => "🕹️ **"@ + username + "** is looking for a match!"@,
        NoticeModel::Matched { first, second } => "⚡ **"@ + first + "** vs **"@ + second
            + "** — match found!"@,
    }
}

/// Whether this is the message that announces a notice. There is none where no
/// webhook is configured.
pub open spec fn announces(
    post: Option<WebhookPost>,
    config: ConfigModel,
    notice: NoticeModel,
) -> bool {
    match post {
        Some(p) => config.discord_webhook_url == Some(p.url@) && p.content@ == notice_text(notice)
            && p.username@ == "Matchmaker"@,
        None => config.discord_webhook_url is None,
    }
}

/// The message that says that a player waits for an opponent.
pub fn notify_lfg(config: &Config, username: &str) -> (post: Option<WebhookPost>)
    ensures
        announces(post, config@, NoticeModel::Lfg { username: username@ }),
{
    let mut content = joined("🕹️ **", username);
    content.append("** is looking for a match!");
    match copy_opt_text(&config.discord_webhook_url) {
        Some(url) => Some(WebhookPost { url, content, username: "Matchmaker".to_string() }),
        None => None,
    }
}

/// The message that says that two players have been matched.
pub fn notify_matched(config: &Config, u1: &str, u2: &str) -> (post: Option<WebhookPost>)
    ensures
        announces(post, config@, NoticeModel::Matched { first: u1@, second: u2@ }),
{
    let mut content = joined("⚡ **", u1);
    content.append("** vs **");
    content.append(u2);
    content.append("** — match found!");
    match copy_opt_text(&config.discord_webhook_url) {
        Some(url) => Some(WebhookPost { url, content, username: "Matchmaker".to_string() }),
        None => None,
    }
}

/// The message that announces a notice.
pub fn announce(config: &Config, notice: &Notice) -> (post: Option<WebhookPost>)
    ensures
        announces(post, config@, notice@),
{
    match notice {
        Notice::Lfg { username } => notify_lfg(config, username.as_str()),
        Notice::Matched { first, second } => notify_matched(
            config,
            first.as_str(),
            second.as_str(),
        ),
    }
}

} // verus!
