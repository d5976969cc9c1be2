//! The event listener's verified core: the configuration it was built with
//! and the command registration state that the dispatcher consults. The
//! platform event plumbing around it lives outside this crate and calls in
//! with plain values.

use vstd::prelude::*;
use crate::config::AppConfig;
use crate::dispatch::{classify_spec, CommandIds, CommandKind, ValidationError};

verus! {

/// The engine's listener state: configuration plus, once bootstrap has
/// registered the platform commands, their identities. Before registration
/// completes, every invocation is answered with "not ready" rather than
/// guessed at.
pub struct Handler {
    /// The configuration the listener was constructed with.
    pub app_config: AppConfig,
    /// The registered command identities; `None` until bootstrap finishes.
    pub command_ids: Option<CommandIds>,
}

impl Handler {
    /// A listener that has not yet registered its commands.
    pub fn new(app_config: AppConfig) -> (h: Self)
        ensures
            h.app_config == app_config,
            h.command_ids is None,
    {
        Handler { app_config, command_ids: None }
    }

    /// Record the command identities that bootstrap registered.
    pub fn commands_registered(&mut self, ids: CommandIds)
        ensures
            final (self).command_ids == Some(ids),
            final (self).app_config == old(self).app_config,
    {
        self.command_ids = Some(ids);
    }

    /// Classify an invocation against this listener's registration state.
    pub fn classify(&self, invoked: u64) -> (r: Result<CommandKind, ValidationError>)
        ensures
            r == classify_spec(self.command_ids, invoked),
    {
        crate::dispatch::classify_command(&self.command_ids, invoked)
    }
}

} // verus!
