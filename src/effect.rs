use vstd::prelude::*;

verus! {

/// The effects that can be run.
#[derive(Clone, Copy, Debug, PartialEq, Eq, Structural)]
pub enum Effect {
    /// Falling glyph streams.
    Matrix,
}

/// The effect run when none is selected.
pub fn default_effect() -> (e: Effect)
    ensures
        e == Effect::Matrix,
{
    Effect::Matrix
}

} // verus!
