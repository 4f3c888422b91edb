//! The failure kinds that the core reports to its callers.

use vstd::prelude::*;

verus! {

/// Every failure of the core is one of these kinds. Nothing is retried
/// inside the core: each kind is handed to the caller as it arises.
#[derive(Clone, Copy, Debug, PartialEq, Eq, Structural)]
pub enum CoreError {
    /// No input device is present.
    DeviceUnavailable,
    /// The device delivers samples in a format the capture path cannot read.
    StreamFormatUnsupported,
    /// The capture artifact could not be created or finalized.
    SinkIOError,
    /// A start was asked for while a session is active, or a stop while idle.
    ActiveSessionConflict,
    /// A loaded artifact is not in the format the engine expects.
    AudioFormatMismatch,
    /// No model is installed for the capability that was asked for.
    ModelUnavailable,
    /// The inference engine could not be constructed.
    DecodeInitFailure,
    /// Inference failed on some chunk; the whole request fails with it.
    DecodeFailure,
}

impl CoreError {
    /// Whether the failure stems from how the machine is set up (no device,
    /// no model) rather than from a run-time fault, so that a caller can
    /// tell whether a retry may help.
    pub open spec fn spec_is_configuration(self) -> bool {
        self == CoreError::DeviceUnavailable || self == CoreError::ModelUnavailable
    }

    #[verifier::when_used_as_spec(spec_is_configuration)]
    pub fn is_configuration(self) -> (b: bool)
        ensures
            b == self.spec_is_configuration(),
    {
        match self {
            CoreError::DeviceUnavailable => true,
            CoreError::ModelUnavailable => true,
            _ => false,
        }
    }
}

} // verus!
