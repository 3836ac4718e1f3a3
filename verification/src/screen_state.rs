use vstd::prelude::*;

verus! {

/// Marker for an active terminal session: the alternate screen buffer and
/// raw input mode.  Entering and restoring those modes is terminal I/O and
/// lives in the shell around the library, which acquires one value of this
/// type when the session starts and holds it for exactly as long as the
/// modes are active, restoring them on every exit path.
pub struct ScreenState;

} // verus!
