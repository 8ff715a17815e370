//! Startup configuration: the static account credentials and the fatal
//! error raised when a required setting is absent.

use vstd::prelude::*;

verus! {

/// Static account credentials: an account identifier and a secret key.
/// Built once at startup and never mutated afterwards.
pub struct Credentials {
    pub account: String,
    pub key: String,
}

/// The fatal configuration error: one of the two required settings is
/// absent. Enumeration never starts when this is raised.
#[derive(Debug, PartialEq, Eq, Structural, Clone, Copy)]
pub enum ConfigError {
    MissingAccount,
    MissingKey,
}

/// Builds credentials from the two required configuration values, as the
/// caller found them (`None` meaning the setting is absent). Fails exactly
/// when a setting is absent, naming the first absent one: the account
/// identifier is checked before the key.
pub fn make_credentials(account: Option<String>, key: Option<String>) -> (r: Result<
    Credentials,
    ConfigError,
>)
    ensures
        (match (account, key) {
            (Some(a), Some(k)) => r == Ok::<Credentials, ConfigError>(
                (Credentials { account: a, key: k }),
            ),
            (None, _) => r == Err::<Credentials, ConfigError>(ConfigError::MissingAccount),
            (Some(_), None) => r == Err::<Credentials, ConfigError>(ConfigError::MissingKey),
        }),
{
    match account {
        None => Err(ConfigError::MissingAccount),
        Some(a) => match key {
            None => Err(ConfigError::MissingKey),
            Some(k) => Ok(Credentials { account: a, key: k }),
        },
    }
}

} // verus!
