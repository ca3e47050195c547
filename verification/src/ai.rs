//! Commands as they travel: who sent them, what caused them, and the command.

use vstd::prelude::*;
use crate::identity::IngressSource;
use crate::osc::RattyAiCommand;

verus! {

/// What put a command on the stream.
#[derive(Clone, Copy, Debug, PartialEq, Eq, Structural)]
pub enum CommandOrigin {
    /// It arrived over the wire.
    Wire,
    /// A caller-started macro playback replayed it.
    Macro,
    /// A bookmark jump replayed it.
    Bookmark,
    /// A reactive rule fired it.
    Rule,
}

/// One command on the stream.
#[derive(Debug)]
pub struct AiCommand {
    /// Whose authority it runs under.
    pub source: IngressSource,
    /// The caller's correlation token.
    pub ack_token: Option<String>,
    /// What put it on the stream.
    pub origin: CommandOrigin,
    /// The command.
    pub command: RattyAiCommand,
}

} // verus!
