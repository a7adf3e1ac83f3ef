//! What the command line asks for.

use crate::config::ThreadlineConfig;
use vstd::prelude::*;

verus! {

/// A command line: the settings, and a command where one is given.
#[derive(Debug, Clone, PartialEq, Eq)]
pub struct ThreadlineCli {
    pub server: ThreadlineConfig,
    pub command: Option<ThreadlineCommand>,
}

/// A command.
#[derive(Debug, Clone, Copy, PartialEq, Eq, Structural)]
pub enum ThreadlineCommand {
    /// Say how to sign in.
    Login,
}

/// What to do.
#[derive(Debug, Clone, PartialEq, Eq)]
pub enum ThreadlineCliAction {
    StartServer(ThreadlineConfig),
    LoginInstructions,
}

impl ThreadlineCli {
    /// What the command line asks for: without a command, the server.
    pub fn into_action(self) -> (action: ThreadlineCliAction)
        ensures
            action == match self.command {
                None => ThreadlineCliAction::StartServer(self.server),
                Some(ThreadlineCommand::Login) => ThreadlineCliAction::LoginInstructions,
            },
    {
        match self.command {
            None => ThreadlineCliAction::StartServer(self.server),
            Some(ThreadlineCommand::Login) => ThreadlineCliAction::LoginInstructions,
        }
    }
}

} // verus!
