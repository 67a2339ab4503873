//! The user's configuration: an optional keymap name and the saved comment
//! presets, and where the configuration file lives.
use vstd::prelude::*;

verus! {

/// A saved comment preset: a name and the comment body it fills in.
#[derive(Debug, Clone, PartialEq, Eq)]
pub struct CommentDefault {
    pub name: String,
    pub body: String,
}

/// The user's configuration.
#[derive(Debug, Clone, PartialEq, Eq)]
pub struct Config {
    pub keymap: Option<String>,
    pub comment_defaults: Vec<CommentDefault>,
}

impl Default for Config {
    /// No keymap and no presets: what a missing configuration file means.
    fn default() -> (r: Self)
        ensures
            r.keymap.is_none(),
            r.comment_defaults@.len() == 0,
    {
        Config { keymap: None, comment_defaults: Vec::new() }
    }
}

/// The directory that holds the program's own configuration directory.
#[derive(Debug, Clone, PartialEq, Eq)]
pub enum ConfigDir {
    /// `XDG_CONFIG_HOME` itself.
    XdgConfigHome(String),
    /// `.config` under `HOME`.
    HomeConfig(String),
    /// The working directory (`.` when it cannot be read).
    WorkingDir,
}

/// Where the configuration directory is: `XDG_CONFIG_HOME` when it is set,
/// else `.config` under `HOME` when that is set, else the working directory.
pub fn config_dir_choice(xdg_config_home: Option<String>, home: Option<String>) -> (r: ConfigDir)
    ensures
        xdg_config_home matches Some(x) ==> r == ConfigDir::XdgConfigHome(x),
        xdg_config_home is None ==> (home matches Some(h) ==> r == ConfigDir::HomeConfig(h)),
        xdg_config_home is None && home is None ==> r == ConfigDir::WorkingDir,
{
    match xdg_config_home {
        Some(x) => ConfigDir::XdgConfigHome(x),
        None => match home {
            Some(h) => ConfigDir::HomeConfig(h),
            None => ConfigDir::WorkingDir,
        },
    }
}

} // verus!
