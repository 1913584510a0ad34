//! The bot's configuration: login credentials and the channels to watch with
//! their colours. Reading it from a file is left to the caller.

use vstd::prelude::*;
use vstd::string::StringExecFns;
use crate::bot::TwitchChannel;
use crate::color::{Rgb, color_parse_safe, hash_hex_rgb, is_hash_hex, parse_twitch_color, rgb_option, twitch_color_rgb, white};

verus! {

/// The whole configuration file.
#[derive(Debug)]
pub struct TwitchBotConfig {
    pub app: AppConfig,
}

/// The application's settings.
#[derive(Debug)]
pub struct AppConfig {
    pub credentials: Credentials,
    pub channels: Vec<ConfigChannel>,
}

/// The login name and token.
#[derive(Debug)]
pub struct Credentials {
    pub username: String,
    pub token: String,
}

/// A channel as the configuration lists it: a name and a colour string.
#[derive(Debug)]
pub struct ConfigChannel {
    pub name: String,
    pub color: String,
}

/// A setting from the environment, or the anonymous login where it is unset.
pub open spec fn or_anonymous(value: Option<String>) -> Seq<char> {
    match value {
        Some(v) => v@,
        None => seq!['j', 'u', 's', 't', 'i', 'n', 'f', 'a', 'n', '1', '2', '3', '4'],
    }
}

impl Credentials {
    /// Credentials from the values of `TWITCH_NAME` and `TWITCH_TOKEN`
    /// (`None` where unset); each falls back to `justinfan1234`.
    pub fn from_env_values(username: Option<String>, token: Option<String>) -> (c: Credentials)
        ensures
            c.username@ == or_anonymous(username),
            c.token@ == or_anonymous(token),
    {
        proof {
            reveal_strlit("justinfan1234");
        }
        let username = match username {
            Some(v) => v,
            None => String::from_str("justinfan1234"),
        };
        let token = match token {
            Some(v) => v,
            None => String::from_str("justinfan1234"),
        };
        Credentials { username, token }
    }
}

impl AppConfig {
    /// The settings used when there is no file: `credentials`, and the
    /// channels `museun` in `#FF0000` and `strager` in `#400080`.
    pub fn default_with(credentials: Credentials) -> (a: AppConfig)
        ensures
            a.credentials == credentials,
            a.channels@.len() == 2,
            a.channels@[0].name@ == "museun"@,
            a.channels@[0].color@ == "#FF0000"@,
            a.channels@[1].name@ == "strager"@,
            a.channels@[1].color@ == "#400080"@,
    {
        let mut channels: Vec<ConfigChannel> = Vec::new();
        channels.push(
            ConfigChannel { name: String::from_str("museun"), color: String::from_str("#FF0000") },
        );
        channels.push(
            ConfigChannel { name: String::from_str("strager"), color: String::from_str("#400080") },
        );
        AppConfig { credentials, channels }
    }
}

/// The colour a configured colour string stands for: what twitchchat parses
/// it as, or white where it cannot.
pub open spec fn configured_color(s: Seq<char>) -> Rgb {
    match rgb_option(twitch_color_rgb(s)) {
        Some(k) => k,
        None => white(),
    }
}

impl ConfigChannel {
    /// Whether twitchchat can parse the configured colour.
    pub fn has_valid_color(&self) -> (ok: bool)
        requires
            color_parse_safe(self.color@),
        ensures
            ok == (twitch_color_rgb(self.color@) is Some),
    {
        parse_twitch_color(self.color.as_str()).is_some()
    }

    /// The channel to watch, given what parsing its colour gave: that
    /// colour, or white when parsing failed.
    pub fn with_parsed_color(self, parsed: Option<Rgb>) -> (c: TwitchChannel)
        ensures
            c.name@ == self.name@,
            c.color == (match parsed {
                Some(k) => k,
                None => white(),
            }),
            *c.msg_rate == 0,
    {
        let color = match parsed {
            Some(k) => k,
            None => Rgb { r: 255, g: 255, b: 255 },
        };
        TwitchChannel::new(self.name, Some(color))
    }

    /// The channel to watch: this name, in the configured colour, or in white
    /// when the colour string does not parse.
    pub fn to_twitch_channel(self) -> (c: TwitchChannel)
        requires
            color_parse_safe(self.color@),
        ensures
            c.name@ == self.name@,
            c.color == configured_color(self.color@),
            is_hash_hex(self.color@) ==> c.color == hash_hex_rgb(self.color@),
            *c.msg_rate == 0,
    {
        let parsed = parse_twitch_color(self.color.as_str());
        self.with_parsed_color(parsed)
    }
}

} // verus!
