//! Which directories the engine's data are taken from.

use vstd::prelude::*;

verus! {

/// Where Squirrel, the macOS front end of the engine, keeps its shared data.
pub const SQUIRREL_DATA_DIR: &'static str =
    "/Library/Input Methods/Squirrel.app/Contents/SharedSupport";

/// Where Homebrew installs shared data; also where they are looked for as a last resort.
pub const HOMEBREW_DATA_DIR: &'static str = "/opt/homebrew/share/rime-data";

/// Where shared data are installed locally.
pub const LOCAL_DATA_DIR: &'static str = "/usr/local/share/rime-data";

/// Where a system keeps shared data.
pub const SYSTEM_DATA_DIR: &'static str = "/usr/share/rime-data";

/// The user's data, below the home directory.
pub const HOME_DATA_DIR: &'static str = "Library/Rime";

/// The user's data where there is no home directory.
pub const FALLBACK_USER_DATA_DIR: &'static str = "rime-user";

/// What there is to take a data directory from.
#[derive(Debug, Clone, Copy, PartialEq, Eq)]
pub struct Named {
    /// An option names it.
    pub by_option: bool,
    /// The environment names it.
    pub by_environment: bool,
    /// It exists beside the program.
    pub packaged: bool,
}

/// Which of the usual directories for shared data exist.
#[derive(Debug, Clone, Copy, PartialEq, Eq)]
pub struct Installed {
    pub squirrel: bool,
    pub homebrew: bool,
    pub local: bool,
    pub system: bool,
}

/// Where the shared data are taken from.
#[derive(Debug, Clone, Copy, PartialEq, Eq, Structural)]
pub enum SharedData {
    ByOption,
    ByEnvironment,
    Packaged,
    Squirrel,
    Homebrew,
    Local,
    System,
}

/// Where the user's data are taken from.
#[derive(Debug, Clone, Copy, PartialEq, Eq, Structural)]
pub enum UserData {
    ByOption,
    ByEnvironment,
    Packaged,
    Home,
    Fallback,
}

/// Where the shared data are taken from: the directory that an option names, else the one that
/// the environment names, else the one beside the program, else the first of the usual ones
/// that exists, else Homebrew's.
pub fn shared_data(named: Named, installed: Installed) -> (r: SharedData)
    ensures
        r == if named.by_option {
            SharedData::ByOption
        } else if named.by_environment {
            SharedData::ByEnvironment
        } else if named.packaged {
            SharedData::Packaged
        } else if installed.squirrel {
            SharedData::Squirrel
        } else if installed.homebrew {
            SharedData::Homebrew
        } else if installed.local {
            SharedData::Local
        } else if installed.system {
            SharedData::System
        } else {
            SharedData::Homebrew
        },
{
    if named.by_option {
        SharedData::ByOption
    } else if named.by_environment {
        SharedData::ByEnvironment
    } else if named.packaged {
        SharedData::Packaged
    } else if installed.squirrel {
        SharedData::Squirrel
    } else if !installed.homebrew && installed.local {
        SharedData::Local
    } else if !installed.homebrew && installed.system {
        SharedData::System
    } else {
        SharedData::Homebrew
    }
}

/// Where the user's data are taken from: the directory that an option names, else the one that
/// the environment names, else the one beside the program, else the one below the home
/// directory, where there is one.
pub fn user_data(named: Named, home: bool) -> (r: UserData)
    ensures
        r == if named.by_option {
            UserData::ByOption
        } else if named.by_environment {
            UserData::ByEnvironment
        } else if named.packaged {
            UserData::Packaged
        } else if home {
            UserData::Home
        } else {
            UserData::Fallback
        },
{
    if named.by_option {
        UserData::ByOption
    } else if named.by_environment {
        UserData::ByEnvironment
    } else if named.packaged {
        UserData::Packaged
    } else if home {
        UserData::Home
    } else {
        UserData::Fallback
    }
}

} // verus!
