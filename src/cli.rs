use vstd::prelude::*;
use crate::config::{AppConfig, Destination, Secrets};

verus! {

/// The commands of the command line.
#[derive(Debug, Clone)]
pub enum Cli {
    /// Build an archive of the configured paths and send it.
    Run,
    /// Store the bot token and the authorized user.
    Init { bot_token: String, user_id: i64 },
    /// Change one setting.
    Config { key: String, value: Option<String> },
}

/// Why a command was refused.
#[derive(Debug, Clone, Copy, PartialEq, Eq, Structural)]
pub enum CliError {
    /// The setting named is not one of `destination`, `telegram_bot_token`, `add_path`.
    UnknownKey,
    /// The setting needs a value and none was given.
    MissingValue,
    /// The destination given is not one that archives can be sent to.
    InvalidDestination,
    /// A backup was asked for before a bot token was stored.
    TokenNotConfigured,
}

/// What remains to be done once a command was accepted.
#[derive(Debug, Clone, Copy, PartialEq, Eq, Structural)]
pub enum Effect {
    /// Build and send a backup.
    RunBackup,
    /// Persist the changed settings.
    SaveConfig,
    /// Persist the changed credentials.
    SaveSecrets,
}

pub open spec fn key_destination() -> Seq<char> {
    seq!['d', 'e', 's', 't', 'i', 'n', 'a', 't', 'i', 'o', 'n']
}

pub open spec fn key_telegram_bot_token() -> Seq<char> {
    seq!['t', 'e', 'l', 'e', 'g', 'r', 'a', 'm', '_', 'b', 'o', 't', '_', 't', 'o', 'k', 'e', 'n']
}

pub open spec fn key_add_path() -> Seq<char> {
    seq!['a', 'd', 'd', '_', 'p', 'a', 't', 'h']
}

pub open spec fn destination_telegram() -> Seq<char> {
    seq!['t', 'e', 'l', 'e', 'g', 'r', 'a', 'm']
}

/// Tells whether two strings hold the same characters.
fn same_text(a: &str, b: &str) -> (r: bool)
    ensures
        r == (a@ == b@),
{
    a.to_owned() == b.to_owned()
}

impl Cli {
    /// Applies a command to the loaded settings and credentials, and says what is
    /// left to do; on an error nothing is changed.
    pub fn execute(&self, config: &mut AppConfig, secrets: &mut Secrets) -> (r: Result<
        Effect,
        CliError,
    >)
        ensures
            *self is Run ==> r == Ok::<Effect, CliError>(Effect::RunBackup)
                && *final(config) == *old(config) && *final(secrets) == *old(secrets),
            *self matches Cli::Init { bot_token, user_id } ==> r == Ok::<Effect, CliError>(
                Effect::SaveSecrets,
            ) && *final(config) == *old(config) && final(secrets).telegram_bot_token == Some(
                bot_token,
            ) && final(secrets).authorized_user_id == Some(user_id),
            *self matches Cli::Config { key, value } ==> r == config_outcome(key@, value)
                && config_change(key@, value, *old(config), *old(secrets), *final(config), *final(secrets)),
    {
        match self {
            Cli::Run => Ok(Effect::RunBackup),
            Cli::Init { bot_token, user_id } => {
                secrets.telegram_bot_token = Some(bot_token.clone());
                secrets.authorized_user_id = Some(*user_id);
                Ok(Effect::SaveSecrets)
            },
            Cli::Config { key, value } => self.handle_config(key.as_str(), value, config, secrets),
        }
    }

    /// The credentials a backup needs: the bot token, if one was stored.
    pub fn run_backup(&self, config: &AppConfig, secrets: &Secrets) -> (r: Result<String, CliError>)
        ensures
            secrets.telegram_bot_token matches Some(t) ==> r == Ok::<String, CliError>(t),
            secrets.telegram_bot_token is None ==> r == Err::<String, CliError>(
                CliError::TokenNotConfigured,
            ),
    {
        match config.destination {
            Destination::Telegram => match &secrets.telegram_bot_token {
                Some(t) => Ok(t.clone()),
                None => Err(CliError::TokenNotConfigured),
            },
        }
    }

    /// Changes the setting named `key` to `value`.
    pub fn handle_config(
        &self,
        key: &str,
        value: &Option<String>,
        config: &mut AppConfig,
        secrets: &mut Secrets,
    ) -> (r: Result<Effect, CliError>)
        ensures
            r == config_outcome(key@, *value),
            config_change(key@, *value, *old(config), *old(secrets), *final(config), *final(secrets)),
    {
        proof {
            reveal_strlit("destination");
            reveal_strlit("telegram_bot_token");
            reveal_strlit("add_path");
            assert("destination"@ =~= key_destination());
            assert("telegram_bot_token"@ =~= key_telegram_bot_token());
            assert("add_path"@ =~= key_add_path());
        }
        if same_text(key, "destination") {
            match self.handle_destination(value, config) {
                Ok(()) => Ok(Effect::SaveConfig),
                Err(e) => Err(e),
            }
        } else if same_text(key, "telegram_bot_token") {
            match self.handle_telegram_token(value, secrets) {
                Ok(()) => Ok(Effect::SaveSecrets),
                Err(e) => Err(e),
            }
        } else if same_text(key, "add_path") {
            match self.handle_add_path(value, config) {
                Ok(()) => Ok(Effect::SaveConfig),
                Err(e) => Err(e),
            }
        } else {
            Err(CliError::UnknownKey)
        }
    }

    /// Sets the destination named by `value`.
    pub fn handle_destination(&self, value: &Option<String>, config: &mut AppConfig) -> (r: Result<
        (),
        CliError,
    >)
        ensures
            r == destination_outcome(*value),
            r is Ok ==> final(config).destination == Destination::Telegram && final(config).paths
                == old(config).paths,
            r is Err ==> *final(config) == *old(config),
    {
        match value {
            None => Err(CliError::MissingValue),
            Some(v) => {
                proof {
                    reveal_strlit("telegram");
                    assert("telegram"@ =~= destination_telegram());
                }
                if same_text(v.as_str(), "telegram") {
                    config.destination = Destination::Telegram;
                    Ok(())
                } else {
                    Err(CliError::InvalidDestination)
                }
            },
        }
    }

    /// Stores the bot token given in `value`.
    pub fn handle_telegram_token(&self, value: &Option<String>, secrets: &mut Secrets) -> (r: Result<
        (),
        CliError,
    >)
        ensures
            value is None ==> r == Err::<(), CliError>(CliError::MissingValue) && *final(secrets)
                == *old(secrets),
            *value matches Some(t) ==> r is Ok && final(secrets).telegram_bot_token == Some(t)
                && final(secrets).authorized_user_id == old(secrets).authorized_user_id,
    {
        match value {
            None => Err(CliError::MissingValue),
            Some(t) => {
                secrets.telegram_bot_token = Some(t.clone());
                Ok(())
            },
        }
    }

    /// Adds the path given in `value` to those backed up.
    pub fn handle_add_path(&self, value: &Option<String>, config: &mut AppConfig) -> (r: Result<
        (),
        CliError,
    >)
        ensures
            value is None ==> r == Err::<(), CliError>(CliError::MissingValue) && *final(config)
                == *old(config),
            *value matches Some(p) ==> r is Ok && final(config).paths@ == old(config).paths@.push(p)
                && final(config).destination == old(config).destination,
    {
        match value {
            None => Err(CliError::MissingValue),
            Some(p) => {
                config.paths.push(p.clone());
                Ok(())
            },
        }
    }
}

/// What setting `destination` to `value` returns.
pub open spec fn destination_outcome(value: Option<String>) -> Result<(), CliError> {
    match value {
        None => Err(CliError::MissingValue),
        Some(v) => if v@ == destination_telegram() {
            Ok(())
        } else {
            Err(CliError::InvalidDestination)
        },
    }
}

/// What setting `key` to `value` returns.
pub open spec fn config_outcome(key: Seq<char>, value: Option<String>) -> Result<Effect, CliError> {
    if key == key_destination() {
        match destination_outcome(value) {
            Ok(_) => Ok(Effect::SaveConfig),
            Err(e) => Err(e),
        }
    } else if key == key_telegram_bot_token() {
        if value is Some {
            Ok(Effect::SaveSecrets)
        } else {
            Err(CliError::MissingValue)
        }
    } else if key == key_add_path() {
        if value is Some {
            Ok(Effect::SaveConfig)
        } else {
            Err(CliError::MissingValue)
        }
    } else {
        Err(CliError::UnknownKey)
    }
}

/// How setting `key` to `value` changes the settings `c` and credentials `s`
/// into `c2` and `s2`.
pub open spec fn config_change(
    key: Seq<char>,
    value: Option<String>,
    c: AppConfig,
    s: Secrets,
    c2: AppConfig,
    s2: Secrets,
) -> bool {
    if config_outcome(key, value) is Err {
        c2 == c && s2 == s
    } else if key == key_destination() {
        c2.destination == Destination::Telegram && c2.paths == c.paths && s2 == s
    } else if key == key_telegram_bot_token() {
        c2 == c && s2.telegram_bot_token == value && s2.authorized_user_id == s.authorized_user_id
    } else {
        c2.destination == c.destination && c2.paths@ == c.paths@.push(value->0) && s2 == s
    }
}

} // verus!
