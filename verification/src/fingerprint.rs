//! What an applet's responses identify it as.

use vstd::prelude::*;

verus! {

/// The family a PIV applet has been identified as, from how it answers on the
/// card. The white/blacklists in [`crate::compat`] are keyed by it.
#[derive(Debug, Clone, Copy, PartialEq, Eq, Structural)]
pub enum AppletFingerprint {
    /// A Yubico YubiKey.
    YubiKey,
    /// A Token2 PIV token.
    Token2,
    /// Any applet that speaks PIV but was not recognised as a known family.
    Generic,
}

} // verus!
