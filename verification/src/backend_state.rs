//! Whether a language server is serving, and for which environment.

use vstd::prelude::*;

verus! {

/// The state of the language server that a document is bound to.
#[derive(Debug)]
pub enum BackendState {
    /// A server is running for `active_venv`, in its `session`-th life.
    Running { active_venv: String, session: u64 },
    /// No server is running, because no virtual environment was found.
    Disabled { reason: String, last_file: Option<String> },
}

impl BackendState {
    /// Whether no server is running.
    pub fn is_disabled(&self) -> (disabled: bool)
        ensures
            disabled == (self is Disabled),
    {
        match self {
            BackendState::Disabled { .. } => true,
            BackendState::Running { .. } => false,
        }
    }

    /// The environment of the running server.
    pub fn active_venv(&self) -> (venv: Option<&String>)
        ensures
            match self {
                BackendState::Running { active_venv, .. } => venv == Some(active_venv),
                BackendState::Disabled { .. } => venv is None,
            },
    {
        match self {
            BackendState::Running { active_venv, .. } => Some(active_venv),
            BackendState::Disabled { .. } => None,
        }
    }

    /// Why no server is running, and the file that was asked for last.
    pub fn disabled_info(&self) -> (info: Option<(&str, Option<&String>)>)
        ensures
            match self {
                BackendState::Disabled { reason, last_file } => match info {
                    Some((why, file)) => why@ == reason@ && match last_file {
                        Some(f) => file == Some(f),
                        None => file is None,
                    },
                    None => false,
                },
                BackendState::Running { .. } => info is None,
            },
    {
        match self {
            BackendState::Disabled { reason, last_file } => {
                let file: Option<&String> = match last_file {
                    Some(f) => Some(f),
                    None => None,
                };
                Some((reason.as_str(), file))
            },
            BackendState::Running { .. } => None,
        }
    }

    /// The session of the running server.
    pub fn session(&self) -> (session: Option<u64>)
        ensures
            match self {
                BackendState::Running { session: s, .. } => session == Some(*s),
                BackendState::Disabled { .. } => session is None,
            },
    {
        match self {
            BackendState::Running { session, .. } => Some(*session),
            BackendState::Disabled { .. } => None,
        }
    }
}

} // verus!
