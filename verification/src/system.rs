//! The embedder contract: the syscalls that the host engine forwards to.

use vstd::prelude::*;

verus! {

use vstd::string::StringSliceAdditionalSpecFns;

/// Log severity, from most to least severe.
#[derive(Clone, Copy, Debug, PartialEq, Eq, Structural)]
pub enum Level {
    /// A failure.
    Error,
    /// A hazard.
    Warn,
    /// Information.
    Info,
    /// Developer diagnostics.
    Debug,
    /// Fine-grained tracing.
    Trace,
}

/// One observable call made into the embedder.
pub enum Call {
    /// A `log(text, level, target)` call, with the exact UTF-8 bytes of the
    /// message and of the target.
    Log {
        /// The UTF-8 bytes of the message.
        text: Seq<u8>,
        /// The severity the message was forwarded at.
        level: Level,
        /// The UTF-8 bytes of the target.
        target: Seq<u8>,
    },
    /// A `read_line(ready, text_ref, capacity_ref)` call.
    ReadLine {
        /// The ready identifier of the command that registered the read.
        ready: u32,
        /// Pointer to the `(size, reference)` pair describing the buffer.
        text_ref: u32,
        /// Pointer to the capacity cell.
        capacity_ref: u32,
    },
    /// A `sleep` call on the registered ready list.
    Sleep {
        /// Number of `u32` slots in the ready list.
        capacity: u32,
        /// Pointer to the ready list.
        data: u32,
    },
}

/// The full record of observed syscalls, for implementors of [`System`]
/// living outside the verified crate: the ghost member [`System::calls`] is
/// declared with this type and never runs.
pub type Calls = Seq<Call>;

/// The system should implement these syscalls.
///
/// The ghost sequence [`System::calls`] records every syscall the engine has
/// made into the embedder, oldest first; each method appends its own record.
/// The engine's contracts are stated over that sequence, so they describe
/// exactly which syscalls any run of the engine performs.
pub trait System: Sized {
    /// Every syscall observed so far, oldest first.
    spec fn calls(&self) -> Seq<Call>;

    /// Sleep until some previously registered operation(s) complete.
    ///
    /// The embedder writes the ready identifiers of the completed operations
    /// into the first `count` slots of the ready list (`size` slots at byte
    /// offset `data` in `bytes`) and returns `count`.  It may write into any
    /// other part of guest memory to fulfil earlier requests, but must not
    /// resize it.
    fn sleep(&mut self, bytes: &mut Vec<u8>, size: u32, data: u32) -> (count: u32)
        ensures
            final(self).calls() == old(self).calls().push(
                Call::Sleep { capacity: size, data },
            ),
            count <= size,
            size > 0 ==> 1 <= count,
            final(bytes)@.len() == old(bytes)@.len(),
    ;

    /// Write a message to the logs.
    fn log(&mut self, text: &str, level: Level, target: &str)
        ensures
            final(self).calls() == old(self).calls().push(
                Call::Log { text: text.spec_bytes(), level, target: target.spec_bytes() },
            ),
    ;

    /// Spawn the task of reading a line of valid UTF-8, not including the
    /// newline character.  Must return promptly: the actual blocking happens
    /// inside the next [`System::sleep`], which appends `ready` to the ready
    /// list once the line has been captured.
    ///
    ///  - `data` points to the UTF-8 buffer pair (`size: u32`, `reference: u32`)
    ///  - `size` points to the capacity of the UTF-8 buffer in bytes
    fn read_line(&mut self, ready: u32, data: u32, size: u32)
        ensures
            final(self).calls() == old(self).calls().push(
                Call::ReadLine { ready, text_ref: data, capacity_ref: size },
            ),
    ;
}

} // verus!
