//! The configuration: where the dotfiles' source directory is, and which of
//! the files on disk supplies it.

use vstd::prelude::*;
use crate::error::DotfilesError;

verus! {

/// The configured source directory.
#[derive(Debug, Clone)]
pub struct Config {
    pub source_dir: String,
}

impl Default for Config {
    /// The current directory.
    fn default() -> (r: Self)
        ensures
            r.source_dir@ == "."@,
    {
        Config { source_dir: String::from_str(".") }
    }
}

/// The configuration that `init` writes.
pub fn initialize_config(source_dir: &str) -> (r: Config)
    ensures
        r.source_dir@ == source_dir@,
{
    Config { source_dir: String::from_str(source_dir) }
}

/// The configuration in use, and whether the legacy file is to be converted
/// (written out in the current format, then removed).
#[derive(Debug, Clone)]
pub struct ConfigChoice {
    pub config: Config,
    pub migrate_legacy: bool,
}

/// Picks the configuration from what was found on disk. `current` is the
/// current-format file: `None` where it is absent, `Some(None)` where it
/// could not be parsed. `legacy` is the JSON file of earlier releases, in
/// the same way. The current file wins; an unparsable one is an error. A
/// parsable legacy file is used and converted; an unparsable one, or none,
/// gives the default.
pub fn resolve_config(current: Option<Option<Config>>, legacy: Option<Option<Config>>) -> (r: Result<
    ConfigChoice,
    DotfilesError,
>)
    ensures
        match current {
            Some(Some(c)) => r matches Ok(ch) && ch.config.source_dir@ == c.source_dir@
                && !ch.migrate_legacy,
            Some(None) => r == Err::<ConfigChoice, DotfilesError>(DotfilesError::InvalidConfig),
            None => match legacy {
                Some(Some(c)) => r matches Ok(ch) && ch.config.source_dir@ == c.source_dir@
                    && ch.migrate_legacy,
                _ => r matches Ok(ch) && ch.config.source_dir@ == "."@ && !ch.migrate_legacy,
            },
        },
{
    match current {
        Some(Some(c)) => Ok(ConfigChoice { config: c, migrate_legacy: false }),
        Some(None) => Err(DotfilesError::InvalidConfig),
        None => match legacy {
            Some(Some(c)) => Ok(ConfigChoice { config: c, migrate_legacy: true }),
            _ => Ok(ConfigChoice { config: Config::default(), migrate_legacy: false }),
        },
    }
}

} // verus!
