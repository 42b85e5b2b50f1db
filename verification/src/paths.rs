//! Where Portus keeps its files: under `~/.config/portus/`.
use std::path::PathBuf;
use vstd::prelude::*;
use crate::text;

verus! {

/// `std::path::PathBuf`, carried through without a look inside.
#[verifier::external_type_specification]
#[verifier::external_body]
pub struct ExPathBuf(std::path::PathBuf);

/// A path below the home directory: the directory, and the names that lead on
/// from it.
#[derive(Debug)]
pub struct HomePath {
    pub home: PathBuf,
    pub names: Vec<String>,
}

/// Why there is no path.
#[derive(Debug, Clone, Copy, PartialEq, Eq, Structural)]
pub enum PathError {
    /// The system names no home directory.
    NoHome,
}

impl PathError {
    /// The text of the error.
    pub fn message(self) -> (message: &'static str)
        ensures
            message@ == "cannot determine home directory"@,
    {
        "cannot determine home directory"
    }
}

/// The systems that Portus runs on.
#[derive(Debug, Clone, Copy, PartialEq, Eq, Structural)]
pub enum Platform {
    Unix,
    Windows,
}

/// The names that lead from the home directory to the configuration directory.
pub open spec fn config_names() -> Seq<Seq<char>> {
    seq![".config"@, "portus"@]
}

/// The name of the daemon's socket, or of its pipe.
pub open spec fn socket_name(platform: Platform) -> Seq<char> {
    match platform {
        Platform::Unix => "portus.sock"@,
        Platform::Windows => "portus.pipe"@,
    }
}

/// Whether `found` is the path of the given names below the home directory, or
/// the error where there is none.
pub open spec fn leads_to(
    home: Option<PathBuf>,
    names: Seq<Seq<char>>,
    found: Result<HomePath, PathError>,
) -> bool {
    match home {
        Some(home) => found matches Ok(path) && path.home == home && text::strings(path.names@)
            == names,
        None => found == Err::<HomePath, PathError>(PathError::NoHome),
    }
}

/// `directories::BaseDirs::new` and the home directory in it, which the system
/// and the environment decide; `None` where there is none.
#[verifier::external_body]
fn home_dir() -> (home: Option<PathBuf>) {
    match directories::BaseDirs::new() {
        Some(base) => Some(base.home_dir().to_path_buf()),
        None => None,
    }
}

/// Base configuration directory below the given home directory.
pub fn config_dir_in(home: Option<PathBuf>) -> (found: Result<HomePath, PathError>)
    ensures
        leads_to(home, config_names(), found),
{
    match home {
        Some(home) => {
            let mut names: Vec<String> = Vec::new();
            names.push(".config".to_owned());
            names.push("portus".to_owned());
            assert(text::strings(names@) =~= config_names());
            Ok(HomePath { home, names })
        },
        None => Err(PathError::NoHome),
    }
}

/// The path of a file in the configuration directory below the given home directory.
pub fn config_file_in(home: Option<PathBuf>, name: &str) -> (found: Result<HomePath, PathError>)
    ensures
        leads_to(home, config_names().push(name@), found),
{
    match config_dir_in(home) {
        Ok(dir) => {
            let mut path = dir;
            path.names.push(name.to_owned());
            assert(text::strings(path.names@) =~= config_names().push(name@));
            Ok(path)
        },
        Err(error) => Err(error),
    }
}

/// Base configuration directory: ~/.config/portus/
pub fn config_dir() -> (found: Result<HomePath, PathError>)
    ensures
        exists|home: Option<PathBuf>| #[trigger] leads_to(home, config_names(), found),
{
    config_dir_in(home_dir())
}

/// Path to the registry file: ~/.config/portus/registry.toml
pub fn registry_path() -> (found: Result<HomePath, PathError>)
    ensures
        exists|home: Option<PathBuf>| #[trigger]
            leads_to(home, config_names().push("registry.toml"@), found),
{
    config_file_in(home_dir(), "registry.toml")
}

/// Path to the daemon socket ~/.config/portus/portus.sock, or to the daemon
/// pipe name marker ~/.config/portus/portus.pipe on Windows.
pub fn socket_path(platform: Platform) -> (found: Result<HomePath, PathError>)
    ensures
        exists|home: Option<PathBuf>| #[trigger]
            leads_to(home, config_names().push(socket_name(platform)), found),
{
    let name = match platform {
        Platform::Unix => "portus.sock",
        Platform::Windows => "portus.pipe",
    };
    assert(name@ == socket_name(platform));
    config_file_in(home_dir(), name)
}

/// Path to the daemon PID file: ~/.config/portus/portus.pid
pub fn pid_path() -> (found: Result<HomePath, PathError>)
    ensures
        exists|home: Option<PathBuf>| #[trigger]
            leads_to(home, config_names().push("portus.pid"@), found),
{
    config_file_in(home_dir(), "portus.pid")
}

} // verus!
