//! The closed set of algorithm selectors and the protocol's outcome codes.

use vstd::prelude::*;

verus! {

/// An algorithm the hardware unit can be asked to run. In the polynomial
/// values, more-significant bits correspond to higher-order terms and the
/// always-one most significant bit is omitted; input bytes are consumed
/// from most-significant bit to least-significant.
#[derive(Clone, Copy, PartialEq, Eq, Structural, Debug)]
pub enum CrcAlg {
    /// Polynomial `0x04C11DB7`; the output is bit-reversed, then bit-inverted.
    Crc32,
    /// Polynomial `0x1EDC6F41` (Castagnoli); the output is bit-reversed,
    /// then bit-inverted.
    Crc32C,
    /// Polynomial `0x1021`, sixteen-bit result in the low-order bits of the
    /// result word, no post-processing.
    Raw16,
    /// Polynomial `0x04C11DB7`, no post-processing.
    Raw32,
    /// Polynomial `0x1EDC6F41`, no post-processing.
    Raw32C,
}

/// The outcome of a client-facing operation, and the status word that a
/// result callback carries.
#[derive(Clone, Copy, PartialEq, Eq, Structural, Debug)]
pub enum ReturnCode {
    /// The operation was accepted.
    Success,
    /// The operation was accepted and has an immediate result word.
    SuccessWithValue { value: u32 },
    /// An unrecognized algorithm selector, or a request from a client
    /// without both a registered buffer and a registered callback.
    InvalidArgument,
    /// The client already has an outstanding request, or the hardware
    /// rejected the start for capacity reasons.
    Busy,
    /// A client record could not be allocated.
    ResourceExhausted,
    /// No record exists for the client identity.
    UnknownClient,
    /// An unrecognized command or slot number.
    NotSupported,
}

/// The selector mapping of the client protocol: `0` through `4` name the
/// five algorithms, every other value is invalid.
pub open spec fn spec_alg_from_user_int(i: int) -> Option<CrcAlg> {
    if i == 0 {
        Some(CrcAlg::Crc32)
    } else if i == 1 {
        Some(CrcAlg::Crc32C)
    } else if i == 2 {
        Some(CrcAlg::Raw16)
    } else if i == 3 {
        Some(CrcAlg::Raw32)
    } else if i == 4 {
        Some(CrcAlg::Raw32C)
    } else {
        None
    }
}

/// Maps a numeric algorithm selector from a client to an algorithm;
/// an unrecognized selector maps to `None`.
pub fn alg_from_user_int(i: usize) -> (r: Option<CrcAlg>)
    ensures
        r == spec_alg_from_user_int(i as int),
{
    match i {
        0 => Some(CrcAlg::Crc32),
        1 => Some(CrcAlg::Crc32C),
        2 => Some(CrcAlg::Raw16),
        3 => Some(CrcAlg::Raw32),
        4 => Some(CrcAlg::Raw32C),
        _ => None,
    }
}

} // verus!
