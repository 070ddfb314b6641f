//! Paths as text: the final component of a path, and where the
//! configuration and the backups live beneath the home directory.

use vstd::prelude::*;
use crate::error::DotfilesError;
use crate::text::{join_path, join_spec};

verus! {

/// The final component of a path, when it is a normal one.
pub uninterp spec fn file_name_of(path: Seq<char>) -> Option<Seq<char>>;

/// Relies on std's `Path::file_name` for the final component of a path; the
/// text is valid UTF-8, so the lossless conversion back keeps it whole.
#[verifier::external_body]
pub(crate) fn path_file_name(path: &str) -> (r: Option<String>)
    ensures
        match r {
            Some(n) => file_name_of(path@) == Some(n@),
            None => file_name_of(path@) is None,
        },
{
    match std::path::Path::new(path).file_name() {
        Some(n) => Some(n.to_string_lossy().into_owned()),
        None => None,
    }
}

/// Where the configuration file lives beneath the home directory.
pub fn get_config_path(home: &str) -> (r: String)
    ensures
        r@ == join_spec(home@, ".dotfiles-rustrc.yaml"@),
{
    join_path(home, ".dotfiles-rustrc.yaml")
}

/// Where the configuration of earlier releases, in JSON, lived.
pub fn legacy_config_path(home: &str) -> (r: String)
    ensures
        r@ == join_spec(home@, ".dotfiles-rustrc"@),
{
    join_path(home, ".dotfiles-rustrc")
}

/// Where the backups are kept beneath the home directory.
pub fn get_backup_dir(home: &str) -> (r: String)
    ensures
        r@ == join_spec(home@, ".local/share/dotfiles-rust/backup"@),
{
    join_path(home, ".local/share/dotfiles-rust/backup")
}

/// The home directory: the `HOME` setting where it is given, else what the
/// operating system reports; `MissingDirectory` when neither is known.
pub fn get_home_dir(env_home: Option<String>, os_home: Option<String>) -> (r: Result<
    String,
    DotfilesError,
>)
    ensures
        match env_home {
            Some(h) => r matches Ok(p) && p@ == h@,
            None => match os_home {
                Some(h) => r matches Ok(p) && p@ == h@,
                None => r == Err::<String, DotfilesError>(DotfilesError::MissingDirectory),
            },
        },
{
    match env_home {
        Some(h) => Ok(h),
        None => match os_home {
            Some(h) => Ok(h),
            None => Err(DotfilesError::MissingDirectory),
        },
    }
}

} // verus!
