//! Feature gating for the vendor-extension PIV commands, verified with Verus.

pub mod compat;
pub mod fingerprint;
pub mod version;
pub mod laws;
