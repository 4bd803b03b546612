//! What the command line asks of the program.

use crate::config::ConfigMode;
use vstd::prelude::*;
use vstd::string::*;

verus! {

/// What the program is run for.
#[derive(Debug, PartialEq, Eq)]
pub enum AppMode {
    Rewrite,
    ListChats { query: Option<String> },
}

/// The command line, read.
#[derive(Debug, PartialEq, Eq)]
pub struct AppArgs {
    pub config_path: String,
    pub mode: AppMode,
}

impl AppArgs {
    /// The arguments that the flags of the command line give: the listing
    /// where it is asked for, with its query, and the rewriter else.
    pub fn from_flags(config_path: String, list_chats: bool, query: Option<String>) -> (args: Self)
        ensures
            args.config_path == config_path,
            args.mode == (if list_chats {
                AppMode::ListChats { query }
            } else {
                AppMode::Rewrite
            }),
    {
        let mode = if list_chats {
            AppMode::ListChats { query }
        } else {
            AppMode::Rewrite
        };
        AppArgs { config_path, mode }
    }

    /// The rules that the configuration is held to for this run.
    pub fn config_mode(&self) -> (mode: ConfigMode)
        ensures
            mode == (match self.mode {
                AppMode::Rewrite => ConfigMode::Rewrite,
                AppMode::ListChats { .. } => ConfigMode::ListChats,
            }),
    {
        match &self.mode {
            AppMode::Rewrite => ConfigMode::Rewrite,
            AppMode::ListChats { .. } => ConfigMode::ListChats,
        }
    }
}

} // verus!
