//! A snapshot of which voxels of the world are solid.

use vstd::prelude::*;
use crate::space::BlockPosition;

verus! {

/// What the world knows about one voxel.
#[derive(Debug, Clone, Copy, PartialEq, Eq, Structural)]
pub enum Occupancy {
    /// The voxel blocks motion.
    Solid,
    /// The voxel is loaded and empty.
    Air,
    /// The voxel lies in a region that is not loaded.
    Unknown,
}

impl Occupancy {
    /// Whether a ray stops at a voxel with this occupancy. Only `Solid`
    /// stops it: a voxel that is not loaded is as open as air.
    pub open spec fn blocks_motion(self) -> bool {
        self == Occupancy::Solid
    }

    /// Tests whether a ray stops at a voxel with this occupancy.
    pub fn is_solid(&self) -> (solid: bool)
        ensures
            solid == self.blocks_motion(),
    {
        match self {
            Occupancy::Solid => true,
            Occupancy::Air => false,
            Occupancy::Unknown => false,
        }
    }
}

/// One voxel whose occupancy the world records.
#[derive(Debug, Clone, Copy, PartialEq, Eq, Structural)]
pub struct Block {
    pub position: BlockPosition,
    pub occupancy: Occupancy,
}

/// The occupancy that the first `count` records of `blocks` give to
/// `position`, where a later record replaces an earlier one and `fill`
/// stands for a voxel that none of them names.
pub open spec fn recorded(
    blocks: Seq<Block>,
    count: int,
    fill: Occupancy,
    position: BlockPosition,
) -> Occupancy
    decreases count,
{
    if count <= 0 {
        fill
    } else if blocks[count - 1].position == position {
        blocks[count - 1].occupancy
    } else {
        recorded(blocks, count - 1, fill, position)
    }
}

/// A read-only snapshot of voxel occupancy: a list of recorded voxels over
/// a background that fills the rest of the grid.
#[derive(Debug)]
pub struct World {
    blocks: Vec<Block>,
    fill: Occupancy,
}

impl World {
    /// The records of the snapshot, oldest first.
    pub closed spec fn records(&self) -> Seq<Block> {
        self.blocks@
    }

    /// The occupancy of every voxel that no record names.
    pub closed spec fn background(&self) -> Occupancy {
        self.fill
    }

    /// The occupancy of the voxel at `position`.
    pub open spec fn occupancy_at(&self, position: BlockPosition) -> Occupancy {
        recorded(self.records(), self.records().len() as int, self.background(), position)
    }

    /// Whether the voxel at `position` is solid.
    pub open spec fn solid_at(&self, position: BlockPosition) -> bool {
        self.occupancy_at(position).blocks_motion()
    }

    /// A world in which every voxel has the occupancy `fill`.
    pub fn new(fill: Occupancy) -> (world: World)
        ensures
            world.records() == Seq::<Block>::empty(),
            world.background() == fill,
            forall|position: BlockPosition| #[trigger] world.occupancy_at(position) == fill,
    {
        World { blocks: Vec::new(), fill }
    }

    /// Records the occupancy of one voxel, in place of whatever the world
    /// held for it; every other voxel keeps its occupancy.
    pub fn set_block(&mut self, position: BlockPosition, occupancy: Occupancy)
        ensures
            final(self).records() == old(self).records().push((Block { position, occupancy })),
            final(self).background() == old(self).background(),
            final(self).occupancy_at(position) == occupancy,
            forall|other: BlockPosition|
                other != position ==> #[trigger] final(self).occupancy_at(other) == old(
                    self,
                ).occupancy_at(other),
    {
        let ghost before = self.blocks@;
        self.blocks.push(Block { position, occupancy });
        proof {
            let after = self.blocks@;
            assert forall|other: BlockPosition|
                recorded(after, before.len() as int, self.fill, other) == recorded(
                    before,
                    before.len() as int,
                    self.fill,
                    other,
                ) by {
                lemma_recorded_prefix(before, after, before.len() as int, self.fill, other);
            }
        }
    }

    /// Looks up the occupancy of the voxel at `position`.
    pub fn block_at(&self, position: BlockPosition) -> (occupancy: Occupancy)
        ensures
            occupancy == self.occupancy_at(position),
    {
        let mut count: usize = self.blocks.len();
        while count > 0
            invariant
                count <= self.blocks.len(),
                self.occupancy_at(position) == recorded(
                    self.blocks@,
                    count as int,
                    self.fill,
                    position,
                ),
            decreases count,
        {
            let block = self.blocks[count - 1];
            if block.position.x == position.x && block.position.y == position.y
                && block.position.z == position.z {
                return block.occupancy;
            }
            count -= 1;
        }
        self.fill
    }
}

/// Two lists that agree on their first `count` records give every voxel
/// the same occupancy over those records.
proof fn lemma_recorded_prefix(
    first: Seq<Block>,
    second: Seq<Block>,
    count: int,
    fill: Occupancy,
    position: BlockPosition,
)
    requires
        count <= first.len(),
        count <= second.len(),
        forall|i: int| 0 <= i < count ==> first[i] == second[i],
    ensures
        recorded(first, count, fill, position) == recorded(second, count, fill, position),
    decreases count,
{
    if count > 0 {
        lemma_recorded_prefix(first, second, count - 1, fill, position);
    }
}

} // verus!
