//! The contract every feature plugin implements.  The dispatch core is
//! polymorphic over this trait and never looks inside a plugin; each feature
//! is one conforming implementation.

use vstd::prelude::*;
use crate::command::PluginCommand;
use crate::error::FrippyError;
use crate::message::Message;

verus! {

/// The outcome of a plugin's quick, non-blocking probe of a message.
#[derive(Debug)]
pub enum ExecutionStatus {
    /// The plugin is finished with the message.
    Done,
    /// The probe itself failed; the dispatcher logs the error and goes on to
    /// the next plugin.
    Failed(FrippyError),
    /// The plugin wants a dedicated worker thread for this message.
    RequiresThread,
}

/// The capability contract of a feature plugin.  Implementations live with
/// the hosting process; the dispatcher never looks inside one.
pub trait Plugin: Sized {
    /// The session type the plugin talks through.
    type Client: crate::FrippyClient;

    /// The name this plugin is registered and addressed under; lookup is
    /// case-insensitive.
    fn name(&self) -> String;

    /// A quick, non-blocking probe of one message, run on the dispatch
    /// thread.  It may reply itself; it returns `RequiresThread` to defer
    /// heavier work to a worker instead of blocking the dispatch thread.
    fn execute(&self, client: &Self::Client, message: &Message) -> ExecutionStatus;

    /// The deferred work for one message; the dispatcher invokes it only
    /// after `execute` returned `RequiresThread` for that same message, on a
    /// dedicated worker.  Errors are logged by the caller, never propagated.
    fn execute_threaded(&self, client: &Self::Client, message: &Message) -> Result<
        (),
        FrippyError,
    >;

    /// Handles an explicit command addressed to this plugin, on a dedicated
    /// worker; the command's first token (this plugin's name) is already
    /// removed.  Errors are logged by the caller, never propagated.
    fn command(&self, client: &Self::Client, command: PluginCommand) -> Result<(), FrippyError>;

    /// Synchronous, side-effect-free evaluation of a command: text is
    /// returned instead of sent, so plugins can compose each other.
    fn evaluate(&self, client: &Self::Client, command: PluginCommand) -> Result<String, String>;
}

} // verus!
