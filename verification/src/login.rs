//! The login the bot presents to Twitch chat, built with twitchchat's
//! `UserConfig` builder, and the rules that builder applies.

use twitchchat::{UserConfig, twitch::{Capability, UserConfigError}};
use vstd::prelude::*;
use vstd::string::{StringExecFns, StringSliceAdditionalSpecFns};
use vstd::utf8::{encode_utf8, is_char_boundary};

verus! {

/// twitchchat's `UserConfig`, the login handed to the chat connection,
/// carried through opaque.
#[verifier::external_type_specification]
#[verifier::external_body]
pub struct ExUserConfig(UserConfig);

/// A capability a login asks Twitch chat for.
#[derive(Clone, Copy, Debug, PartialEq, Eq, Structural)]
pub enum LoginCapability {
    Membership,
    Tags,
    Commands,
    /// One this library does not know.
    Other,
}

/// A login that twitchchat built, with copies of the name, token and
/// capabilities it holds.
pub struct Login {
    pub config: UserConfig,
    pub name: String,
    pub token: String,
    pub capabilities: Vec<LoginCapability>,
}

/// The capabilities `enable_all_capabilities` asks for, in the order the
/// built login lists them (twitchchat keeps them in a sorted set).
pub open spec fn all_capabilities() -> Seq<LoginCapability> {
    seq![LoginCapability::Membership, LoginCapability::Tags, LoginCapability::Commands]
}

/// Why a login is refused.
#[derive(Clone, Copy, Debug, PartialEq, Eq, Structural)]
pub enum ConfigError {
    /// The name is empty.
    InvalidName,
    /// The token is neither the anonymous one nor `oauth:` and 36 bytes in all.
    InvalidToken,
    /// Only one of name and token is the anonymous login.
    PartialAnonymous,
}

/// The name and token of an anonymous login, `justinfan1234`.
pub open spec fn anonymous_login() -> Seq<char> {
    seq!['j', 'u', 's', 't', 'i', 'n', 'f', 'a', 'n', '1', '2', '3', '4']
}

/// The bytes of `oauth:`.
pub open spec fn oauth_prefix() -> Seq<u8> {
    seq![111u8, 97u8, 117u8, 116u8, 104u8, 58u8]
}

/// A token that the builder accepts: the anonymous one, or 36 bytes that
/// begin with `oauth:`.
pub open spec fn token_accepted(token: Seq<char>) -> bool {
    ||| token == anonymous_login()
    ||| encode_utf8(token).len() == 36 && encode_utf8(token).subrange(0, 6) == oauth_prefix()
}

/// A token that the builder can check without panicking: it cuts a 36-byte
/// token after its sixth byte, which must end a character.
pub open spec fn token_checkable(token: Seq<char>) -> bool {
    ||| token == anonymous_login()
    ||| encode_utf8(token).len() != 36
    ||| is_char_boundary(encode_utf8(token), 6)
}

/// A name and token that the builder can check without panicking: it looks
/// at the token only once the name has passed, that is, is not empty.
pub open spec fn login_checkable(name: Seq<char>, token: Seq<char>) -> bool {
    name.len() == 0 || token_checkable(token)
}

/// The config twitchchat's builder makes of a name and a token, with all
/// capabilities enabled, when it accepts them.
pub uninterp spec fn built_config(name: Seq<char>, token: Seq<char>) -> UserConfig;

/// What the builder makes of a name and a token: the first rule broken, in
/// the builder's order, or success.
pub open spec fn login_outcome(name: Seq<char>, token: Seq<char>) -> Result<(), ConfigError> {
    if name.len() == 0 {
        Err(ConfigError::InvalidName)
    } else if !token_accepted(token) {
        Err(ConfigError::InvalidToken)
    } else if (name == anonymous_login()) != (token == anonymous_login()) {
        Err(ConfigError::PartialAnonymous)
    } else {
        Ok(())
    }
}

/// Builds an anonymous login with all capabilities, through twitchchat's
/// `UserConfig::builder().anonymous().enable_all_capabilities().build()`.
///
/// Trusted: from the crate's source, an anonymous builder sets name and token
/// to `justinfan1234` (its `ANONYMOUS_LOGIN`), which passes every check, so
/// `build` returns `Ok` with a config whose `name` and `token` fields are
/// those strings and whose `capabilities` are Membership, Tags, Commands (the
/// sorted set that `enable_all_capabilities` filled); the copies in the
/// result are read from those fields. The config is the one the builder
/// makes of that name and token (`built_config`): the anonymous builder only
/// sets them, and `build` reads nothing else; the rest of the config is
/// opaque here.
#[verifier::external_body]
pub(crate) fn build_anonymous_login() -> (r: Option<Login>)
    ensures
        r is Some,
        r matches Some(l) ==> l.name@ == anonymous_login() && l.token@ == anonymous_login()
            && l.capabilities@ == all_capabilities() && l.config == built_config(
            anonymous_login(),
            anonymous_login(),
        ),
{
    UserConfig::builder().anonymous().enable_all_capabilities().build().ok().map(|c| Login {
        name: c.name.clone(),
        token: c.token.clone(),
        capabilities: c.capabilities.iter().map(|k| match k {
            Capability::Membership => LoginCapability::Membership,
            Capability::Tags => LoginCapability::Tags,
            Capability::Commands => LoginCapability::Commands,
            _ => LoginCapability::Other,
        }).collect(),
        config: c,
    })
}

/// Builds a login for `name` and `token` with all capabilities, through
/// twitchchat's `UserConfig::builder().name(..).token(..)
/// .enable_all_capabilities().build()`.
///
/// Trusted: from the crate's source, `build` refuses an empty name, then a
/// token that is not accepted (see `token_accepted`), then a login where only
/// one of the two is anonymous, with the matching `UserConfigError`, and
/// otherwise succeeds with a config whose `name` and `token` fields are the
/// strings given and whose `capabilities` are Membership, Tags, Commands; the
/// copies in the result are read from those fields, and the config is a
/// function of the name and token alone (`built_config`). Once the name has
/// passed it slices a 36-byte token at byte 6, hence the `requires`. The
/// rest of the config is opaque here.
#[verifier::external_body]
pub(crate) fn build_login(name: &str, token: &str) -> (r: Result<Login, ConfigError>)
    requires
        login_checkable(name@, token@),
    ensures
        match login_outcome(name@, token@) {
            Ok(()) => r matches Ok(l) && l.name@ == name@ && l.token@ == token@
                && l.capabilities@ == all_capabilities() && l.config == built_config(
                name@,
                token@,
            ),
            Err(e) => r matches Err(f) && f == e,
        },
{
    let built = UserConfig::builder().name(name).token(token).enable_all_capabilities().build();
    built.map(|c| Login { name: c.name.clone(), token: c.token.clone(),
        capabilities: c.capabilities.iter().map(|k| match k {
            Capability::Membership => LoginCapability::Membership,
            Capability::Tags => LoginCapability::Tags,
            Capability::Commands => LoginCapability::Commands,
            _ => LoginCapability::Other }).collect(), config: c })
    .map_err(|e| match e {
        UserConfigError::InvalidName => ConfigError::InvalidName,
        UserConfigError::InvalidToken => ConfigError::InvalidToken,
        _ => ConfigError::PartialAnonymous })
}

/// Whether the builder can check `name` and `token` without panicking (see
/// `login_checkable`).
pub fn login_is_checkable(name: &str, token: &str) -> (ok: bool)
    ensures
        ok == login_checkable(name@, token@),
{
    name.is_empty() || token_is_checkable(token)
}

/// Whether the builder can check `token` without panicking (see
/// `token_checkable`).
pub fn token_is_checkable(token: &str) -> (ok: bool)
    ensures
        ok == token_checkable(token@),
{
    proof {
        reveal_strlit("justinfan1234");
    }
    let anonymous = String::from_str("justinfan1234");
    assert(anonymous@ =~= anonymous_login());
    assert(token.spec_bytes() == encode_utf8(token@));
    if String::from_str(token) == anonymous {
        return true;
    }
    token.as_bytes().len() != 36 || token.is_char_boundary(6)
}

} // verus!
