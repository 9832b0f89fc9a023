//! The two worlds seen through the cat's eyes.

use vstd::prelude::*;

verus! {

/// Which eye the player looks through: the right eye sees the surface
/// world (always true), the left eye sees the shadow world (always false).
#[derive(Debug, Clone, Copy, PartialEq, Eq, Structural)]
pub enum World {
    Surface,
    Shadow,
}

impl World {
    /// Lower-case identifier used in snapshot paths and file names.
    pub fn as_str(self) -> (s: &'static str)
        ensures
            s@ == self.spec_as_str(),
    {
        match self {
            World::Surface => "surface",
            World::Shadow => "shadow",
        }
    }

    pub open spec fn spec_as_str(self) -> Seq<char> {
        match self {
            World::Surface => "surface"@,
            World::Shadow => "shadow"@,
        }
    }

    /// Display label of the world.
    pub fn label(self) -> (s: &'static str)
        ensures
            s@ == self.spec_label(),
    {
        match self {
            World::Surface => "表面",
            World::Shadow => "影子",
        }
    }

    pub open spec fn spec_label(self) -> Seq<char> {
        match self {
            World::Surface => "表面"@,
            World::Shadow => "影子"@,
        }
    }

    /// The other eye.
    pub open spec fn spec_toggled(self) -> World {
        match self {
            World::Surface => World::Shadow,
            World::Shadow => World::Surface,
        }
    }

    pub fn toggled(self) -> (w: World)
        ensures
            w != self,
            w == self.spec_toggled(),
    {
        match self {
            World::Surface => World::Shadow,
            World::Shadow => World::Surface,
        }
    }
}

impl Default for World {
    /// The right eye: the surface world.
    fn default() -> (w: World)
        ensures
            w == World::Surface,
    {
        World::Surface
    }
}

} // verus!
