use vstd::prelude::*;

verus! {

/// Marker for the actor driven by the character system.
#[derive(Clone, Copy, Debug, PartialEq, Eq)]
pub struct MainCharacter;

} // verus!
