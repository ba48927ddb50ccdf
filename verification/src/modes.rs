use vstd::prelude::*;
use crate::state::{CirnoState, Modes};

verus! {

/// Puts the editor into the mode `mode`.
pub fn switch_to_mode(mode: Modes, state: &mut CirnoState)
    ensures
        *final(state) == (CirnoState { mode, ..*old(state) }),
{
    state.mode = mode;
}

} // verus!
