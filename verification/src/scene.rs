//! What a scene does from frame to frame.

use vstd::prelude::*;

verus! {

/// Whether the scene turns, after the page has said what it wants: 0 stops
/// it, 1 starts it, and anything else leaves it as it is.
pub fn animation(animate: bool, wanted: i32) -> (next: bool)
    ensures
        next == (if wanted == 0 {
            false
        } else if wanted == 1 {
            true
        } else {
            animate
        }),
{
    if wanted == 0 && animate {
        false
    } else if wanted == 1 && !animate {
        true
    } else {
        animate
    }
}

} // verus!
