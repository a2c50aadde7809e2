//! Which of the four separated stems (vocals, drums, bass, other) exist for a track.

use vstd::prelude::*;

verus! {

/// Presence flags for the four stem files of a track.
#[derive(Clone, Copy, Debug, PartialEq, Eq, Structural)]
pub struct StemAvailability {
    pub vocals: bool,
    pub drums: bool,
    pub bass: bool,
    pub other: bool,
}

impl StemAvailability {
    /// True when at least one stem file exists.
    pub fn any_available(&self) -> (r: bool)
        ensures
            r == (self.vocals || self.drums || self.bass || self.other),
    {
        self.vocals || self.drums || self.bass || self.other
    }

    /// True when all four stem files exist.
    pub fn all_available(&self) -> (r: bool)
        ensures
            r == (self.vocals && self.drums && self.bass && self.other),
    {
        self.vocals && self.drums && self.bass && self.other
    }
}

} // verus!
