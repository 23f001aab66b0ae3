//! Challenge-response authentication of a hardware signing device.
//!
//! The crate builds the command frames of the exchange, parses the byte
//! layout of each response, derives a domain-separated digest over
//! canonically encoded values, checks a Schnorr signature against that
//! digest, validates a Pedersen commitment point, and sequences the whole
//! session as a state machine.  The byte-level transport to the device and
//! the elliptic-curve arithmetic are outside collaborators.

pub mod codec;
pub mod commitment;
pub mod errors;
pub mod hashing;
pub mod orchestrator;
pub mod schnorr;
