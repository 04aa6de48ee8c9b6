//! Where the service keeps its files.

use crate::error::ErrorKind;
use vstd::prelude::*;

verus! {

/// The data directory of a user whose home directory is `home`:
/// `<home>/.local/share/memoria`.
pub open spec fn data_dir_of(home: Seq<char>) -> Seq<char> {
    home + "/.local/share/memoria"@
}

/// The store file in a data directory: `<data_dir>/memoria.db`.
pub open spec fn db_path_of(data_dir: Seq<char>) -> Seq<char> {
    data_dir + "/memoria.db"@
}

/// The settings file of a user whose home directory is `home`:
/// `<home>/.config/memoria/config.toml`.
pub open spec fn config_path_of(home: Seq<char>) -> Seq<char> {
    home + "/.config/memoria/config.toml"@
}

/// Calls `dirs::home_dir` and reads the path as text, where it is UTF-8.
/// Nothing is claimed of the result: it depends on the environment.
#[verifier::external_body]
fn home_dir() -> (home: Option<String>) {
    match dirs::home_dir() {
        Some(path) => path.into_os_string().into_string().ok(),
        None => None,
    }
}

/// The data directory under a home directory.
pub fn data_dir_under(home: &str) -> (path: String)
    ensures
        path@ == data_dir_of(home@),
{
    let mut path = home.to_owned();
    path.append("/.local/share/memoria");
    path
}

/// The store file in a data directory.
pub fn db_path_in(data_dir: &str) -> (path: String)
    ensures
        path@ == db_path_of(data_dir@),
{
    let mut path = data_dir.to_owned();
    path.append("/memoria.db");
    path
}

/// The settings file under a home directory.
pub fn config_path_under(home: &str) -> (path: String)
    ensures
        path@ == config_path_of(home@),
{
    let mut path = home.to_owned();
    path.append("/.config/memoria/config.toml");
    path
}

/// The data directory of the current user. Fails where the home directory
/// cannot be told.
pub fn default_data_dir() -> (result: Result<String, ErrorKind>)
    ensures
        match result {
            Ok(path) => exists|home: Seq<char>| path@ == data_dir_of(home),
            Err(kind) => kind == ErrorKind::StoreFailure,
        },
{
    match home_dir() {
        Some(home) => {
            let path = data_dir_under(home.as_str());
            Ok(path)
        },
        None => Err(ErrorKind::StoreFailure),
    }
}

/// The store file of the current user. Fails where the home directory
/// cannot be told.
pub fn default_db_path() -> (result: Result<String, ErrorKind>)
    ensures
        match result {
            Ok(path) => exists|home: Seq<char>| path@ == db_path_of(data_dir_of(home)),
            Err(kind) => kind == ErrorKind::StoreFailure,
        },
{
    match home_dir() {
        Some(home) => {
            let dir = data_dir_under(home.as_str());
            let path = db_path_in(dir.as_str());
            Ok(path)
        },
        None => Err(ErrorKind::StoreFailure),
    }
}

/// The settings file of the current user. Fails where the home directory
/// cannot be told.
pub fn default_config_path() -> (result: Result<String, ErrorKind>)
    ensures
        match result {
            Ok(path) => exists|home: Seq<char>| path@ == config_path_of(home),
            Err(kind) => kind == ErrorKind::StoreFailure,
        },
{
    match home_dir() {
        Some(home) => {
            let path = config_path_under(home.as_str());
            Ok(path)
        },
        None => Err(ErrorKind::StoreFailure),
    }
}

} // verus!
