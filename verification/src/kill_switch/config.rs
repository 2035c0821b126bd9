//! The `[core]` section of the shared config file. Every field has a
//! default; a command-line flag, where given, wins over the file.
//!
//! The setting that matters most is `tor_backend`: `Arti` (the default)
//! runs Tor in-process; `Subprocess` drives the official `tor` binary as
//! a child process instead.

use std::path::PathBuf;

use vstd::prelude::*;

verus! {

#[derive(Debug, Clone, Copy, PartialEq, Eq, Structural)]
pub enum TorBackendKind {
    Arti,
    Subprocess,
}

#[derive(Debug, Clone)]
pub struct CoreConfig {
    /// `Arti` when unset.
    pub tor_backend: Option<TorBackendKind>,
    /// Explicit path to the `tor` binary for the subprocess backend; when
    /// unset it is looked up on `PATH` and in Tor Browser's install
    /// locations.
    pub tor_binary_path: Option<PathBuf>,
}

impl Default for CoreConfig {
    fn default() -> (c: CoreConfig)
        ensures
            c.tor_backend is None,
            c.tor_binary_path is None,
    {
        CoreConfig { tor_backend: None, tor_binary_path: None }
    }
}

/// The backend to run: the command-line choice if given, else the config
/// file's, else `Arti`.
pub fn resolve_backend_kind(cli: Option<TorBackendKind>, config: &CoreConfig) -> (k: TorBackendKind)
    ensures
        k == match cli {
            Some(c) => c,
            None => match config.tor_backend {
                Some(c) => c,
                None => TorBackendKind::Arti,
            },
        },
{
    match cli {
        Some(c) => c,
        None => match config.tor_backend {
            Some(c) => c,
            None => TorBackendKind::Arti,
        },
    }
}

} // verus!
