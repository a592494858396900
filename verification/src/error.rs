use vstd::prelude::*;

verus! {

/// Typed failures of the capture engine. Every fallible operation of this
/// crate returns one of these; nothing is retried automatically.
#[derive(Debug)]
pub enum Error {
    /// Discovery or composition found nothing to operate on.
    NoOutputs,
    /// A required protocol global is absent or version-incompatible; the
    /// string names the missing interface.
    ProtocolNotFound(String),
    /// Format negotiation found no acceptable pixel layout, or no converter
    /// is registered for the chosen layout.
    NoSupportedBufferFormat,
    /// A computed buffer size cannot be represented for allocation.
    BufferTooSmall,
    /// The capture session was stopped by the server before a frame was
    /// delivered; the session is unusable and the caller may retry.
    CaptureFailed,
}

} // verus!
