//! Handles and settings of the host: window, renderer, guest sandbox.

use vstd::prelude::*;

verus! {

/// A renderer that has not been initialised.
pub struct Renderer {}

impl Default for Renderer {
    fn default() -> (r: Self) {
        Renderer {  }
    }
}

/// Limits on one guest module.
pub struct SandboxConfig {
    /// Most guest instructions for one call.
    pub fuel: u64,
    /// Most bytes of a delta taken back from the guest.
    pub delta_budget_bytes: usize,
}

impl Default for SandboxConfig {
    /// No fuel and no bytes.
    fn default() -> (r: Self)
        ensures
            r.fuel == 0,
            r.delta_budget_bytes == 0,
    {
        SandboxConfig { fuel: 0, delta_budget_bytes: 0 }
    }
}

/// The window that is being driven.
pub struct WindowHandle {}

} // verus!
