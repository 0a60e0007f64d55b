//! Small pieces of simulator state that hold no measurements.
use vstd::prelude::*;

verus! {

/// When `false`, the per-frame stats collectors (velocity samples and ghost
/// paths) are skipped entirely.  Hit records and sound are unaffected.
#[derive(Clone, Copy, Debug, PartialEq, Eq, Structural)]
pub struct StatsIntake(pub bool);

impl core::default::Default for StatsIntake {
    fn default() -> (s: Self)
        ensures
            s.0,
    {
        StatsIntake(true)
    }
}

/// Whether the hi-hat is currently open (long sustain) or closed (short tick).
#[derive(Clone, Copy, Debug, PartialEq, Eq, Structural)]
pub struct HiHatState {
    pub open: bool,
}

impl core::default::Default for HiHatState {
    fn default() -> (s: Self)
        ensures
            s.open,
    {
        HiHatState { open: true }
    }
}

/// Axis constraint while dragging a chute handle.
#[derive(Clone, Copy, Debug, PartialEq, Eq, Structural)]
pub enum DragAxis {
    Free,
    /// Y only.
    Vertical,
    /// Z only.
    Horizontal,
}

impl core::default::Default for DragAxis {
    fn default() -> (a: Self)
        ensures
            a == DragAxis::Free,
    {
        DragAxis::Free
    }
}

} // verus!
