use vstd::prelude::*;

verus! {

/// Next state of the global wireframe switch: it flips exactly when the
/// toggle key went down in this frame.
pub fn next_wireframe(global: bool, toggle_just_pressed: bool) -> (r: bool)
    ensures
        r == (global != toggle_just_pressed),
{
    if toggle_just_pressed {
        !global
    } else {
        global
    }
}

} // verus!
