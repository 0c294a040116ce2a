use vstd::prelude::*;

verus! {

/// State id of air; an unset block reads as air.
pub const AIR_ID: u32 = 0;

/// State id of stone bricks, which border every plot.
pub const STONE_BRICKS_ID: u32 = 1;

/// State id of sandstone, the floor inside a plot.
pub const SANDSTONE_ID: u32 = 2;

/// State id of a stone pressure plate that nobody stands on.
pub const PRESSURE_PLATE_OFF_ID: u32 = 3;

/// State id of a stone pressure plate that somebody stands on.
pub const PRESSURE_PLATE_ON_ID: u32 = 4;

/// State id of a lever that is off.
pub const LEVER_OFF_ID: u32 = 5;

/// State id of a lever that is on.
pub const LEVER_ON_ID: u32 = 6;

/// State id of a stone button that is released.
pub const BUTTON_OFF_ID: u32 = 7;

/// State id of a stone button that is pressed.
pub const BUTTON_ON_ID: u32 = 8;

/// The blocks whose meaning the plot logic depends on; every other state id is `Other`.
#[derive(Clone, Copy, Debug, PartialEq, Eq, Structural)]
pub enum Block {
    Air,
    StoneBricks,
    Sandstone,
    StonePressurePlate { powered: bool },
    Lever { powered: bool },
    StoneButton { powered: bool },
    Other { id: u32 },
}

/// The block that a state id stands for.
pub open spec fn block_of_id(id: u32) -> Block {
    if id == AIR_ID {
        Block::Air
    } else if id == STONE_BRICKS_ID {
        Block::StoneBricks
    } else if id == SANDSTONE_ID {
        Block::Sandstone
    } else if id == PRESSURE_PLATE_OFF_ID || id == PRESSURE_PLATE_ON_ID {
        Block::StonePressurePlate { powered: id == PRESSURE_PLATE_ON_ID }
    } else if id == LEVER_OFF_ID || id == LEVER_ON_ID {
        Block::Lever { powered: id == LEVER_ON_ID }
    } else if id == BUTTON_OFF_ID || id == BUTTON_ON_ID {
        Block::StoneButton { powered: id == BUTTON_ON_ID }
    } else {
        Block::Other { id }
    }
}

/// The state id of a block.
pub open spec fn id_of_block(b: Block) -> u32 {
    match b {
        Block::Air => AIR_ID,
        Block::StoneBricks => STONE_BRICKS_ID,
        Block::Sandstone => SANDSTONE_ID,
        Block::StonePressurePlate { powered } => if powered {
            PRESSURE_PLATE_ON_ID
        } else {
            PRESSURE_PLATE_OFF_ID
        },
        Block::Lever { powered } => if powered {
            LEVER_ON_ID
        } else {
            LEVER_OFF_ID
        },
        Block::StoneButton { powered } => if powered {
            BUTTON_ON_ID
        } else {
            BUTTON_OFF_ID
        },
        Block::Other { id } => id,
    }
}

/// A block value that some state id stands for (an `Other` never reuses a named id).
pub open spec fn block_wf(b: Block) -> bool {
    match b {
        Block::Other { id } => id > BUTTON_ON_ID,
        _ => true,
    }
}

impl Block {
    pub fn from_id(id: u32) -> (r: Block)
        ensures
            r == block_of_id(id),
    {
        if id == AIR_ID {
            Block::Air
        } else if id == STONE_BRICKS_ID {
            Block::StoneBricks
        } else if id == SANDSTONE_ID {
            Block::Sandstone
        } else if id == PRESSURE_PLATE_OFF_ID || id == PRESSURE_PLATE_ON_ID {
            Block::StonePressurePlate { powered: id == PRESSURE_PLATE_ON_ID }
        } else if id == LEVER_OFF_ID || id == LEVER_ON_ID {
            Block::Lever { powered: id == LEVER_ON_ID }
        } else if id == BUTTON_OFF_ID || id == BUTTON_ON_ID {
            Block::StoneButton { powered: id == BUTTON_ON_ID }
        } else {
            Block::Other { id }
        }
    }

    pub fn get_id(&self) -> (r: u32)
        ensures
            r == id_of_block(*self),
    {
        match *self {
            Block::Air => AIR_ID,
            Block::StoneBricks => STONE_BRICKS_ID,
            Block::Sandstone => SANDSTONE_ID,
            Block::StonePressurePlate { powered } => if powered {
                PRESSURE_PLATE_ON_ID
            } else {
                PRESSURE_PLATE_OFF_ID
            },
            Block::Lever { powered } => if powered {
                LEVER_ON_ID
            } else {
                LEVER_OFF_ID
            },
            Block::StoneButton { powered } => if powered {
                BUTTON_ON_ID
            } else {
                BUTTON_OFF_ID
            },
            Block::Other { id } => id,
        }
    }
}

/// Reading a state id back from a block gives the id that it was read from, and
/// every well-formed block is what its own id stands for.
pub proof fn lemma_block_id_round_trip(id: u32, b: Block)
    ensures
        id_of_block(block_of_id(id)) == id,
        block_wf(block_of_id(id)),
        block_wf(b) ==> block_of_id(id_of_block(b)) == b,
{
}

} // verus!
