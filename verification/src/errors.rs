use vstd::prelude::*;

verus! {

/// The error kinds the bot distinguishes.
///
/// `TransportFailure` is fatal to the worker owning the connection;
/// `MalformedEvent` marks an unparseable line or coordinate string and is
/// skippable; `SubmissionRejected` is a non-stale rejection of a candidate
/// move; `NoLegalMoves` means the candidate list was exhausted and the game
/// must be resigned; `TablebaseUnavailable` makes the engine fall through to
/// its heuristic path.
#[derive(Copy, Clone, PartialEq, Eq, Structural, Debug)]
pub enum BotError {
    TransportFailure,
    MalformedEvent,
    SubmissionRejected,
    NoLegalMoves,
    TablebaseUnavailable,
}

} // verus!
