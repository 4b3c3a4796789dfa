use crate::text::str_eq;
use vstd::prelude::*;

verus! {

/// A compass direction on the screen.  The screen's `y` axis grows southwards.
#[derive(Debug, Clone, Copy, PartialEq, Eq, Structural)]
pub enum Direction {
    North,
    West,
    South,
    East,
}

impl Direction {
    /// The direction that points the other way.
    pub open spec fn opposite(self) -> Direction {
        match self {
            Direction::South => Direction::North,
            Direction::North => Direction::South,
            Direction::East => Direction::West,
            Direction::West => Direction::East,
        }
    }

    /// The lower-case name of the direction, as the window manager spells it.
    pub open spec fn name(self) -> Seq<char> {
        match self {
            Direction::South => "south"@,
            Direction::North => "north"@,
            Direction::East => "east"@,
            Direction::West => "west"@,
        }
    }

    /// The horizontal component of the unit vector of the direction.
    pub open spec fn unit_x(self) -> int {
        match self {
            Direction::East => 1,
            Direction::West => -1,
            _ => 0,
        }
    }

    /// The vertical component of the unit vector of the direction.
    pub open spec fn unit_y(self) -> int {
        match self {
            Direction::South => 1,
            Direction::North => -1,
            _ => 0,
        }
    }

    pub fn into_opposite(self) -> (opposite: Self)
        ensures
            opposite == self.opposite(),
    {
        match self {
            Direction::South => Direction::North,
            Direction::North => Direction::South,
            Direction::East => Direction::West,
            Direction::West => Direction::East,
        }
    }

    /// Reads a direction from its lower-case name; any other text gives `None`.
    pub fn from_str(s: &str) -> (direction: Option<Direction>)
        ensures
            match direction {
                Some(d) => s@ == d.name(),
                None => forall|d: Direction| s@ != d.name(),
            },
    {
        proof {
            reveal_strlit("west");
            reveal_strlit("east");
            reveal_strlit("north");
            reveal_strlit("south");
        }
        if str_eq(s, "west") {
            Some(Direction::West)
        } else if str_eq(s, "east") {
            Some(Direction::East)
        } else if str_eq(s, "north") {
            Some(Direction::North)
        } else if str_eq(s, "south") {
            Some(Direction::South)
        } else {
            None
        }
    }

    /// The lower-case name of the direction.
    pub fn as_str(&self) -> (name: &'static str)
        ensures
            name@ == self.name(),
    {
        match self {
            Direction::South => "south",
            Direction::North => "north",
            Direction::East => "east",
            Direction::West => "west",
        }
    }
}

/// Turning around twice gives the direction one started with.
pub proof fn opposite_is_an_involution(direction: Direction)
    ensures
        direction.opposite().opposite() == direction,
{
}

/// No two directions share a name.
pub proof fn names_are_distinct(a: Direction, b: Direction)
    requires
        a.name() == b.name(),
    ensures
        a == b,
{
    reveal_strlit("west");
    reveal_strlit("east");
    reveal_strlit("north");
    reveal_strlit("south");
    assert("west"@[0] == 'w' && "east"@[0] == 'e' && "north"@[0] == 'n' && "south"@[0] == 's');
}

} // verus!
