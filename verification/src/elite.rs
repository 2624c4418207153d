use vstd::prelude::*;

verus! {

/// Elite event variants.
#[derive(Debug, Clone, Copy, PartialEq, Eq, Structural)]
pub enum EliteVariant {
    /// Single massive elite.
    Solo,
    /// Massive elite plus support enemies.
    WithSupport,
}

} // verus!
