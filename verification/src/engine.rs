//! Error surface of the engine: host traps and bring-up errors.

use vstd::prelude::*;

verus! {

/// A host trap: an unrecoverable fault raised from inside a host import that
/// terminates the guest.  Each variant names the condition that raised it.
#[derive(Clone, Copy, Debug, PartialEq, Eq, Structural)]
pub enum Trap {
    /// A codec operation would read or write outside guest memory.
    OutOfBounds,
    /// A command payload size does not match the destination's expectation.
    CommandSize,
    /// A command named a channel that is out of range or unbound.
    InvalidChannel,
    /// A connect payload requested an unknown portal ID.
    InvalidPortal,
    /// A command addressed a channel whose portal is not enabled.
    DisabledPortal,
    /// A string field passed to the log or debug import was not valid UTF-8.
    InvalidUtf8,
    /// A log command carried a level outside the known range.
    InvalidLogLevel,
    /// A log command at the fatal level, raised after forwarding the message.
    Fatal,
    /// The channel ID counter cannot grow any further.
    ChannelExhausted,
    /// A trap raised by the guest itself rather than by a host import; the
    /// engine never raises this, but an embedder reports it when wrapping a
    /// crash whose origin is the guest.
    Guest,
}

/// An engine bring-up error reported to the embedder.
#[derive(Clone, Copy, Debug, PartialEq, Eq, Structural)]
pub enum Error {
    /// The Wasm module bytes are invalid, or the module has a start function.
    InvalidWasm,
    /// Binding the host imports failed.
    LinkerFailed,
    /// The guest crashed on a trap.
    Crash(Trap),
    /// The module does not export its linear memory under `memory`.
    MissingMemory,
    /// The module does not export a nullary `run` function.
    MissingRun,
}

} // verus!
