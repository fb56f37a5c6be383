//! The command line: what the user asked for, and which task that is.

use vstd::prelude::*;

verus! {

/// The parsed command line.
#[derive(Debug)]
pub struct Cli {
    /// Run as the daemon (the service starts the program this way).
    pub daemon: bool,
    pub command: Option<Command>,
}

/// The subcommands.
#[derive(Debug)]
pub enum Command {
    /// Show daemon status and synced agents.
    Status,
    /// Force sync now.
    Sync,
    /// Stop the daemon.
    Stop,
    /// Remove the service.
    Uninstall,
    /// Agents installed on this system.
    Agents { action: Option<AgentsAction> },
}

/// What to do with the agents installed on this system.
#[derive(Debug)]
pub enum AgentsAction {
    /// List every known agent and whether it is installed.
    List,
}

/// The task that a command line asks for.
#[derive(Debug, Clone, Copy, PartialEq, Eq, Structural)]
pub enum Task {
    RunDaemon,
    Status,
    Sync,
    Stop,
    Uninstall,
    ListAgents,
    /// No subcommand: install or start the service and sync once.
    FirstRun,
}

/// `--daemon` wins over any subcommand; `agents` without an action lists
/// the agents; no subcommand is the first run.
pub open spec fn task_for(cli: Cli) -> Task {
    if cli.daemon {
        Task::RunDaemon
    } else {
        match cli.command {
            Some(Command::Status) => Task::Status,
            Some(Command::Sync) => Task::Sync,
            Some(Command::Stop) => Task::Stop,
            Some(Command::Uninstall) => Task::Uninstall,
            Some(Command::Agents { .. }) => Task::ListAgents,
            None => Task::FirstRun,
        }
    }
}

impl Cli {
    /// The task this command line asks for.
    pub fn task(&self) -> (r: Task)
        ensures
            r == task_for(*self),
    {
        if self.daemon {
            return Task::RunDaemon;
        }
        match &self.command {
            Some(Command::Status) => Task::Status,
            Some(Command::Sync) => Task::Sync,
            Some(Command::Stop) => Task::Stop,
            Some(Command::Uninstall) => Task::Uninstall,
            Some(Command::Agents { action }) => match action {
                Some(AgentsAction::List) => Task::ListAgents,
                None => Task::ListAgents,
            },
            None => Task::FirstRun,
        }
    }
}

} // verus!
