//! Arbitration of a single hardware CRC (cyclic redundancy check) unit
//! among multiple untrusted clients.
//!
//! Only one computation can be in flight at a time, because the unit is a
//! single physical resource. Clients register a callback and a buffer,
//! then request a computation by a numeric algorithm selector; the arbiter
//! records the request, scans the client records in registration order for
//! the first eligible pending request, and starts it on the hardware. When
//! the hardware later reports a result, the arbiter routes it to the client
//! whose request occupied the unit, clears that client's pending state, and
//! re-scans for the next eligible request.
//!
//! The hardware itself is behind the [`arbiter::CrcUnit`] trait; nothing is
//! assumed of it, and the arbiter is verified for every answer the hardware
//! can give. Callback invocations are returned as [`arbiter::Delivery`]
//! values for the surrounding system to perform.

pub mod alg;
pub mod arbiter;
pub mod laws;
pub mod store;
