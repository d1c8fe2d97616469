use vstd::prelude::*;

verus! {

/// What a floating item or an inventory stack is made of.
#[derive(Clone, Copy, Debug, PartialEq, Eq, Structural, Hash, PartialOrd, Ord)]
pub enum FloatingItemType {
    Wood,
    Plastic,
    Rope,
    Metal,
    Nail,
    Cloth,
    Barrel,
    Coconut,
    Fish,
    Seaweed,
    Treasure,
    Bottle,
}

pub open spec fn spec_max_stack_size(t: FloatingItemType) -> u32 {
    match t {
        FloatingItemType::Wood => 32,
        FloatingItemType::Plastic => 32,
        FloatingItemType::Rope => 16,
        FloatingItemType::Metal => 16,
        FloatingItemType::Nail => 64,
        FloatingItemType::Cloth => 16,
        FloatingItemType::Barrel => 4,
        FloatingItemType::Coconut => 8,
        FloatingItemType::Fish => 4,
        FloatingItemType::Seaweed => 16,
        FloatingItemType::Treasure => 1,
        FloatingItemType::Bottle => 8,
    }
}

pub open spec fn spec_item_color(t: FloatingItemType) -> u32 {
    match t {
        FloatingItemType::Wood => 0x8B4513FF,
        FloatingItemType::Plastic => 0x1E90FFFF,
        FloatingItemType::Rope => 0xC2B280FF,
        FloatingItemType::Metal => 0xB0B0B0FF,
        FloatingItemType::Nail => 0x696969FF,
        FloatingItemType::Cloth => 0xFFB6C1FF,
        FloatingItemType::Barrel => 0x8B4513FF,
        FloatingItemType::Coconut => 0x654321FF,
        FloatingItemType::Fish => 0x87CEFAFF,
        FloatingItemType::Seaweed => 0x228B22FF,
        FloatingItemType::Treasure => 0xFFD700FF,
        FloatingItemType::Bottle => 0x87CEEBFF,
    }
}

/// Visual size, in thousandths of a unit.
pub open spec fn spec_item_size(t: FloatingItemType) -> i64 {
    match t {
        FloatingItemType::Wood => 12000,
        FloatingItemType::Plastic => 10000,
        FloatingItemType::Rope => 8000,
        FloatingItemType::Metal => 9000,
        FloatingItemType::Nail => 4000,
        FloatingItemType::Cloth => 8000,
        FloatingItemType::Barrel => 16000,
        FloatingItemType::Coconut => 6000,
        FloatingItemType::Fish => 7000,
        FloatingItemType::Seaweed => 5000,
        FloatingItemType::Treasure => 8000,
        FloatingItemType::Bottle => 6000,
    }
}

/// How often the item turns up, in thousandths.
pub open spec fn spec_rarity(t: FloatingItemType) -> u32 {
    match t {
        FloatingItemType::Wood => 300,
        FloatingItemType::Plastic => 250,
        FloatingItemType::Rope => 200,
        FloatingItemType::Metal => 150,
        FloatingItemType::Nail => 100,
        FloatingItemType::Cloth => 100,
        FloatingItemType::Barrel => 50,
        FloatingItemType::Coconut => 200,
        FloatingItemType::Fish => 150,
        FloatingItemType::Seaweed => 100,
        FloatingItemType::Treasure => 20,
        FloatingItemType::Bottle => 50,
    }
}

/// The item type drawn by `roll` (in thousandths, below 1000): the first type,
/// in declaration order, whose running sum of rarities reaches the roll.
pub open spec fn spec_pick(roll: u32) -> FloatingItemType {
    if roll <= 300 {
        FloatingItemType::Wood
    } else if roll <= 550 {
        FloatingItemType::Plastic
    } else if roll <= 750 {
        FloatingItemType::Rope
    } else if roll <= 900 {
        FloatingItemType::Metal
    } else {
        FloatingItemType::Nail
    }
}

/// The item type drawn by `roll`, a random number in thousandths below 1000.
/// The rarities of the first five types already sum to a whole, so later
/// types are never drawn.
pub fn pick_item_type(roll: u32) -> (r: FloatingItemType)
    requires
        roll < 1000,
    ensures
        r == spec_pick(roll),
{
    if roll <= 300 {
        FloatingItemType::Wood
    } else if roll <= 550 {
        FloatingItemType::Plastic
    } else if roll <= 750 {
        FloatingItemType::Rope
    } else if roll <= 900 {
        FloatingItemType::Metal
    } else {
        FloatingItemType::Nail
    }
}

impl FloatingItemType {
    /// How often the item turns up, in thousandths.
    pub fn rarity(&self) -> (r: u32)
        ensures
            r == spec_rarity(*self),
    {
        match self {
            FloatingItemType::Wood => 300,
            FloatingItemType::Plastic => 250,
            FloatingItemType::Rope => 200,
            FloatingItemType::Metal => 150,
            FloatingItemType::Nail => 100,
            FloatingItemType::Cloth => 100,
            FloatingItemType::Barrel => 50,
            FloatingItemType::Coconut => 200,
            FloatingItemType::Fish => 150,
            FloatingItemType::Seaweed => 100,
            FloatingItemType::Treasure => 20,
            FloatingItemType::Bottle => 50,
        }
    }

    /// RGBA colour used to draw the item.
    pub fn color(&self) -> (r: u32)
        ensures
            r == spec_item_color(*self),
    {
        match self {
            FloatingItemType::Wood => 0x8B4513FF,
            FloatingItemType::Plastic => 0x1E90FFFF,
            FloatingItemType::Rope => 0xC2B280FF,
            FloatingItemType::Metal => 0xB0B0B0FF,
            FloatingItemType::Nail => 0x696969FF,
            FloatingItemType::Cloth => 0xFFB6C1FF,
            FloatingItemType::Barrel => 0x8B4513FF,
            FloatingItemType::Coconut => 0x654321FF,
            FloatingItemType::Fish => 0x87CEFAFF,
            FloatingItemType::Seaweed => 0x228B22FF,
            FloatingItemType::Treasure => 0xFFD700FF,
            FloatingItemType::Bottle => 0x87CEEBFF,
        }
    }

    /// Visual size, in thousandths of a unit.
    pub fn size(&self) -> (r: i64)
        ensures
            r == spec_item_size(*self),
    {
        match self {
            FloatingItemType::Wood => 12000,
            FloatingItemType::Plastic => 10000,
            FloatingItemType::Rope => 8000,
            FloatingItemType::Metal => 9000,
            FloatingItemType::Nail => 4000,
            FloatingItemType::Cloth => 8000,
            FloatingItemType::Barrel => 16000,
            FloatingItemType::Coconut => 6000,
            FloatingItemType::Fish => 7000,
            FloatingItemType::Seaweed => 5000,
            FloatingItemType::Treasure => 8000,
            FloatingItemType::Bottle => 6000,
        }
    }

    /// How many of this item one inventory slot holds.
    pub fn max_stack_size(&self) -> (r: u32)
        ensures
            r == spec_max_stack_size(*self),
            r >= 1,
    {
        match self {
            FloatingItemType::Wood => 32,
            FloatingItemType::Plastic => 32,
            FloatingItemType::Rope => 16,
            FloatingItemType::Metal => 16,
            FloatingItemType::Nail => 64,
            FloatingItemType::Cloth => 16,
            FloatingItemType::Barrel => 4,
            FloatingItemType::Coconut => 8,
            FloatingItemType::Fish => 4,
            FloatingItemType::Seaweed => 16,
            FloatingItemType::Treasure => 1,
            FloatingItemType::Bottle => 8,
        }
    }

    /// Food items: coconut, fish and seaweed.
    pub fn is_consumable(&self) -> (r: bool)
        ensures
            r == (*self == FloatingItemType::Coconut || *self == FloatingItemType::Fish
                || *self == FloatingItemType::Seaweed),
    {
        match self {
            FloatingItemType::Coconut | FloatingItemType::Fish | FloatingItemType::Seaweed => true,
            _ => false,
        }
    }
}

} // verus!
