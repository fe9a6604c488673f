//! The client's configuration, and the order of precedence by which it is
//! resolved from the command line, the configuration file and the defaults.

use crate::text::{copy_texts, texts};
use vstd::prelude::*;

verus! {

/// The resolved configuration of one invocation.
pub struct Config {
    /// The file that holds the identity's secret key, if one is set.
    pub key_file: Option<String>,
    /// The file that holds the group engine's database.
    pub db_path: String,
    /// The relays to connect to.
    pub relays: Vec<String>,
}

/// The three settings as one source gives them: the command line, or the
/// configuration file. A setting that the source does not give is `None`.
pub struct Settings {
    pub key_file: Option<String>,
    pub db_path: Option<String>,
    pub relays: Option<Vec<String>>,
}

/// Why a configuration could not be resolved.
#[derive(Clone, Copy, Debug, PartialEq, Eq, Structural)]
pub enum ConfigError {
    /// No source gives a database path and there is no default one.
    NoDatabasePath,
}

/// The relays that are used where no source names any.
pub open spec fn default_relay_list() -> Seq<Seq<char>> {
    seq!["wss://relay.primal.net"@, "wss://relay.damus.io"@]
}

/// The first of three optional values that is given.
pub open spec fn first_given<T>(a: Option<T>, b: Option<T>, c: Option<T>) -> Option<T> {
    if a.is_some() {
        a
    } else if b.is_some() {
        b
    } else {
        c
    }
}

/// The relays that are used where no source names any.
pub fn default_relays() -> (relays: Vec<String>)
    ensures
        texts(relays@) == default_relay_list(),
{
    let mut relays: Vec<String> = Vec::new();
    relays.push("wss://relay.primal.net".to_owned());
    relays.push("wss://relay.damus.io".to_owned());
    assert(texts(relays@) =~= default_relay_list());
    relays
}

impl Settings {
    /// The source that gives nothing.
    pub fn none() -> (settings: Settings)
        ensures
            settings.key_file.is_none(),
            settings.db_path.is_none(),
            settings.relays.is_none(),
    {
        Settings { key_file: None, db_path: None, relays: None }
    }
}

impl Config {
    /// Resolves the configuration. For each setting the command line comes
    /// first and the configuration file second. The database path falls back
    /// to `default_db_path`, and it is an error if that is missing too; the
    /// key file may stay unset; the relays fall back to the default relays.
    pub fn resolve(cli: Settings, file: Settings, default_db_path: Option<String>) -> (resolved:
        Result<Config, ConfigError>)
        ensures
            resolved.is_ok() == first_given(cli.db_path, file.db_path, default_db_path).is_some(),
            resolved.is_err() ==> resolved == Err::<Config, ConfigError>(
                ConfigError::NoDatabasePath,
            ),
            resolved.is_ok() ==> {
                let config = resolved.unwrap();
                &&& Some(config.db_path) == first_given(
                    cli.db_path,
                    file.db_path,
                    default_db_path,
                )
                &&& config.key_file == first_given(cli.key_file, file.key_file, None)
                &&& if cli.relays.is_some() {
                    config.relays == cli.relays.unwrap()
                } else if file.relays.is_some() {
                    config.relays == file.relays.unwrap()
                } else {
                    texts(config.relays@) == default_relay_list()
                }
            },
    {
        let db_path = match cli.db_path {
            Some(path) => path,
            None => match file.db_path {
                Some(path) => path,
                None => match default_db_path {
                    Some(path) => path,
                    None => {
                        return Err(ConfigError::NoDatabasePath);
                    },
                },
            },
        };
        let key_file = match cli.key_file {
            Some(path) => Some(path),
            None => file.key_file,
        };
        let relays = match cli.relays {
            Some(list) => list,
            None => match file.relays {
                Some(list) => list,
                None => default_relays(),
            },
        };
        Ok(Config { key_file, db_path, relays })
    }

    /// The settings to write to the configuration file: every setting of
    /// this configuration, given.
    pub fn to_settings(&self) -> (settings: Settings)
        ensures
            settings.key_file == self.key_file,
            settings.db_path == Some(self.db_path),
            settings.relays.is_some(),
            texts(settings.relays.unwrap()@) == texts(self.relays@),
    {
        let relays = copy_texts(&self.relays);
        Settings {
            key_file: self.key_file.clone(),
            db_path: Some(self.db_path.clone()),
            relays: Some(relays),
        }
    }
}

} // verus!
