use vstd::prelude::*;

verus! {

/// Failures of the codecs and of the call protocol.
#[derive(Clone, Copy, Debug, PartialEq, Eq, Structural)]
pub enum PduError {
    /// A buffer shorter than required, or a fixed field that does not decode.
    Malformed,
    /// A response whose opcode byte is not a recognised PDU type.
    Protocol,
    /// The underlying byte stream failed.
    Transport,
}

} // verus!
