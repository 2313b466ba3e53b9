//! The application configuration carried by the shell: the selected theme.
//! Persistence of the configuration file is the boundary's concern.

use vstd::prelude::*;

verus! {

/// The visual theme of the application shell.
#[derive(Debug, Clone, Copy, PartialEq, Eq, Structural)]
pub enum Theme {
    Dark,
    Light,
}

/// The application configuration.
#[derive(Debug, Clone, Copy, PartialEq, Eq, Structural)]
pub struct Config {
    /// The selected theme.
    pub theme: Theme,
}

impl Default for Config {
    /// A fresh installation starts with the light theme.
    fn default() -> (r: Self)
        ensures
            r.theme is Light,
    {
        Config { theme: Theme::Light }
    }
}

} // verus!
