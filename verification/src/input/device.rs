use vstd::prelude::*;

verus! {

/// Gesture configuration (e.g. a 3-finger horizontal swipe changes the workspace).
#[derive(Debug, Clone, PartialEq, Eq)]
pub struct GestureConfig {
    pub fingers: u32,
    pub direction: String,
    pub action: String,
}

} // verus!
