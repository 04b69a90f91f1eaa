//! Why a watcher was refused.

use vstd::prelude::*;

verus! {

/// A refused watcher operation.
#[derive(Debug, Clone, Copy, PartialEq, Eq, Structural)]
pub enum WatchError {
    /// A command watcher runs a command.
    EmptyCommand,
    /// A watcher has a short label.
    InvalidLabel,
    /// A command does not wait on its parent.
    AttentionOnCommand,
    /// A pattern comes with matching, and only with it.
    PatternMode,
    /// A pattern is short.
    PatternTooLong,
    /// The pattern does not compile.
    InvalidPattern,
    /// The session no longer watches.
    Stopped,
    /// The budget of running watchers is used up.
    TooMany,
    /// A watcher has one kind of subject.
    CommandAndAgents,
    /// An agent runs where it was launched.
    AgentWorkdir,
    /// An agent has no output to match.
    AgentPattern,
    /// An agent exits or waits on its parent.
    AgentMatch,
    /// There is no such watcher.
    NotFound,
}

impl WatchError {
    /// The text that describes the refusal.
    pub open spec fn text(self) -> Seq<char> {
        match self {
            WatchError::EmptyCommand => "watch command must not be empty"@,
            WatchError::InvalidLabel => "watcher label must contain 1–100 characters"@,
            WatchError::AttentionOnCommand => "notify_on=attention applies to an agent watcher, not a command"@,
            WatchError::PatternMode => "notify_pattern is required only when notify_on is match"@,
            WatchError::PatternTooLong => "notify_pattern exceeds 4096 bytes"@,
            WatchError::InvalidPattern => "invalid watcher notification pattern"@,
            WatchError::Stopped => "session watchers have stopped"@,
            WatchError::TooMany => "at most 4 watchers can run; stop one first"@,
            WatchError::CommandAndAgents => "watch takes a command or agents, not both"@,
            WatchError::AgentWorkdir => "an agent watcher has no workdir"@,
            WatchError::AgentPattern => "notify_pattern selects command output, which an agent has none of"@,
            WatchError::AgentMatch => "an agent watcher notifies on exit or attention"@,
            WatchError::NotFound => "watcher not found in this session"@,
        }
    }

    /// Describes the refusal.
    pub fn message(&self) -> (res: String)
        ensures
            res@ == self.text(),
    {
        match self {
            WatchError::EmptyCommand => "watch command must not be empty".to_owned(),
            WatchError::InvalidLabel => "watcher label must contain 1–100 characters".to_owned(),
            WatchError::AttentionOnCommand => "notify_on=attention applies to an agent watcher, not a command".to_owned(),
            WatchError::PatternMode => "notify_pattern is required only when notify_on is match".to_owned(),
            WatchError::PatternTooLong => "notify_pattern exceeds 4096 bytes".to_owned(),
            WatchError::InvalidPattern => "invalid watcher notification pattern".to_owned(),
            WatchError::Stopped => "session watchers have stopped".to_owned(),
            WatchError::TooMany => "at most 4 watchers can run; stop one first".to_owned(),
            WatchError::CommandAndAgents => "watch takes a command or agents, not both".to_owned(),
            WatchError::AgentWorkdir => "an agent watcher has no workdir".to_owned(),
            WatchError::AgentPattern => "notify_pattern selects command output, which an agent has none of".to_owned(),
            WatchError::AgentMatch => "an agent watcher notifies on exit or attention".to_owned(),
            WatchError::NotFound => "watcher not found in this session".to_owned(),
        }
    }
}

} // verus!
