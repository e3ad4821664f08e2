//! The faces of a voxel through which a ray can enter it.

use vstd::prelude::*;

verus! {

/// The side of a voxel through which a ray entered it.
///
/// `NONE` is reported when the ray started inside the voxel and so
/// crossed no face at all.
#[derive(Debug, Clone, Copy, PartialEq, Eq, Structural)]
pub enum Side {
    NORTH,
    SOUTH,
    WEST,
    EAST,
    TOP,
    BOTTOM,
    NONE,
}

impl Side {
    /// The English name of the side, as a sequence of characters.
    pub open spec fn label(self) -> Seq<char> {
        match self {
            Side::NORTH => "North"@,
            Side::SOUTH => "South"@,
            Side::WEST => "West"@,
            Side::EAST => "East"@,
            Side::TOP => "Top"@,
            Side::BOTTOM => "Bottom"@,
            Side::NONE => "None"@,
        }
    }

    /// The English name of the side.
    pub fn to_string(&self) -> (name: String)
        ensures
            name@ == self.label(),
    {
        match self {
            Side::NORTH => String::from_str("North"),
            Side::SOUTH => String::from_str("South"),
            Side::WEST => String::from_str("West"),
            Side::EAST => String::from_str("East"),
            Side::TOP => String::from_str("Top"),
            Side::BOTTOM => String::from_str("Bottom"),
            Side::NONE => String::from_str("None"),
        }
    }
}

} // verus!
