use vstd::prelude::*;

use crate::heading::Heading;

verus! {

/// One cell of the grid: where it is, which robot stands on it (`-1` for none),
/// and for each direction whether leaving the cell that way is still safe.
#[derive(Clone, Copy, Debug, PartialEq, Eq, Structural)]
pub struct Location {
    pub id: i32,
    pub x: i32,
    pub y: i32,
    pub can_go_north: bool,
    pub can_go_south: bool,
    pub can_go_east: bool,
    pub can_go_west: bool,
}

impl Location {
    /// Is leaving this cell towards `h` still safe?
    pub open spec fn can_go(self, h: Heading) -> bool {
        match h {
            Heading::North => self.can_go_north,
            Heading::South => self.can_go_south,
            Heading::East => self.can_go_east,
            Heading::West => self.can_go_west,
        }
    }

    /// This cell with leaving it towards `h` marked unsafe.
    pub open spec fn with_hazard(self, h: Heading) -> Location {
        match h {
            Heading::North => Location { can_go_north: false, ..self },
            Heading::South => Location { can_go_south: false, ..self },
            Heading::East => Location { can_go_east: false, ..self },
            Heading::West => Location { can_go_west: false, ..self },
        }
    }

    /// The cell at `(x, y)` as it starts: empty, and safe to leave every way.
    pub open spec fn fresh(x: i32, y: i32) -> Location {
        Location {
            id: -1i32,
            x,
            y,
            can_go_north: true,
            can_go_south: true,
            can_go_east: true,
            can_go_west: true,
        }
    }

    pub fn move_to(&mut self, x: i32, y: i32)
        ensures
            *final(self) == (Location { x, y, ..*old(self) }),
    {
        self.x = x;
        self.y = y;
    }

    pub fn new(x: i32, y: i32) -> (r: Location)
        ensures
            r == Location::fresh(x, y),
    {
        Location {
            id: -1,
            x,
            y,
            can_go_north: true,
            can_go_south: true,
            can_go_east: true,
            can_go_west: true,
        }
    }
}

} // verus!
