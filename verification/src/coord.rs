//! Grid coordinates and the four directions of travel.

use vstd::prelude::*;

verus! {

/// One of the four ways the snake can travel on the grid.
#[derive(Clone, Copy, Debug, PartialEq, Eq, Structural)]
pub enum Direction {
    Left,
    Up,
    Down,
    Right,
}

/// A grid cell: row first, then column.
#[derive(Clone, Copy, Debug, PartialEq, Eq, Structural)]
pub struct Coord(pub usize, pub usize);

impl Direction {
    /// The direction pointing the other way.
    pub open spec fn spec_opposite(&self) -> Direction {
        match self {
            Direction::Left => Direction::Right,
            Direction::Right => Direction::Left,
            Direction::Up => Direction::Down,
            Direction::Down => Direction::Up,
        }
    }

    /// Turns around: `Up` and `Down` swap, and so do `Left` and `Right`.
    #[verifier::when_used_as_spec(spec_opposite)]
    pub fn opposite(&self) -> (turned: Direction)
        ensures
            turned == self.spec_opposite(),
    {
        match self {
            Direction::Left => Direction::Right,
            Direction::Right => Direction::Left,
            Direction::Up => Direction::Down,
            Direction::Down => Direction::Up,
        }
    }

    /// The direction an arrow key stands for, by the key's name.
    pub open spec fn spec_from_key(key: Seq<char>) -> Option<Direction> {
        if key == "ArrowUp"@ {
            Some(Direction::Up)
        } else if key == "ArrowDown"@ {
            Some(Direction::Down)
        } else if key == "ArrowLeft"@ {
            Some(Direction::Left)
        } else if key == "ArrowRight"@ {
            Some(Direction::Right)
        } else {
            None
        }
    }

    /// Reads the name of a pressed key: the four arrow keys steer, and any
    /// other key is `None`, to be ignored by the caller.
    pub fn from_key(key: &str) -> (steer: Option<Direction>)
        ensures
            steer == Direction::spec_from_key(key@),
    {
        let name = key.to_owned();
        if name == "ArrowUp".to_owned() {
            Some(Direction::Up)
        } else if name == "ArrowDown".to_owned() {
            Some(Direction::Down)
        } else if name == "ArrowLeft".to_owned() {
            Some(Direction::Left)
        } else if name == "ArrowRight".to_owned() {
            Some(Direction::Right)
        } else {
            None
        }
    }
}

impl Coord {
    /// Where `other` lies as seen from `self`. A difference in rows decides
    /// first; only cells of one row are told apart by their columns. A cell
    /// compared with itself reads as `Right`.
    pub open spec fn spec_direction_to(&self, other: &Coord) -> Direction {
        if self.0 > other.0 {
            Direction::Up
        } else if self.0 < other.0 {
            Direction::Down
        } else if self.1 > other.1 {
            Direction::Left
        } else {
            Direction::Right
        }
    }

    /// The direction from this cell towards `other`, rows before columns.
    #[verifier::when_used_as_spec(spec_direction_to)]
    pub fn direction_to(&self, other: &Coord) -> (towards: Direction)
        ensures
            towards == self.spec_direction_to(other),
    {
        if self.0 > other.0 {
            Direction::Up
        } else if self.0 < other.0 {
            Direction::Down
        } else if self.1 > other.1 {
            Direction::Left
        } else {
            Direction::Right
        }
    }

    /// The cell one step away in `direction`, or `None` where that step
    /// would leave the range of coordinates.
    pub open spec fn spec_step(&self, direction: Direction) -> Option<Coord> {
        match direction {
            Direction::Left => if self.1 > 0 {
                Some(Coord(self.0, (self.1 - 1) as usize))
            } else {
                None
            },
            Direction::Right => if self.1 < usize::MAX {
                Some(Coord(self.0, (self.1 + 1) as usize))
            } else {
                None
            },
            Direction::Up => if self.0 > 0 {
                Some(Coord((self.0 - 1) as usize, self.1))
            } else {
                None
            },
            Direction::Down => if self.0 < usize::MAX {
                Some(Coord((self.0 + 1) as usize, self.1))
            } else {
                None
            },
        }
    }

    /// Offsets this cell by one in `direction`: `Left` and `Right` change the
    /// column, `Up` and `Down` the row. Coordinates never wrap around: a step
    /// below zero or above the largest coordinate yields `None`.
    #[verifier::when_used_as_spec(spec_step)]
    pub fn step(&self, direction: Direction) -> (next: Option<Coord>)
        ensures
            next == self.spec_step(direction),
    {
        match direction {
            Direction::Left => if self.1 > 0 {
                Some(Coord(self.0, self.1 - 1))
            } else {
                None
            },
            Direction::Right => if self.1 < usize::MAX {
                Some(Coord(self.0, self.1 + 1))
            } else {
                None
            },
            Direction::Up => if self.0 > 0 {
                Some(Coord(self.0 - 1, self.1))
            } else {
                None
            },
            Direction::Down => if self.0 < usize::MAX {
                Some(Coord(self.0 + 1, self.1))
            } else {
                None
            },
        }
    }
}

/// Whether two cells are neighbours on the grid: one step apart along a row
/// or along a column.
pub open spec fn adjacent(a: Coord, b: Coord) -> bool {
    ||| a.0 == b.0 && (a.1 + 1 == b.1 || b.1 + 1 == a.1)
    ||| a.1 == b.1 && (a.0 + 1 == b.0 || b.0 + 1 == a.0)
}

/// Turning around twice gives the direction back, and turning around once
/// never does.
pub proof fn lemma_opposite_twice(direction: Direction)
    ensures
        direction.spec_opposite().spec_opposite() == direction,
        direction.spec_opposite() != direction,
{
}

/// A step leads to a neighbouring cell, which lies in the direction of the
/// step, and from which the way back is the opposite direction.
pub proof fn lemma_step_lands_next_door(from: Coord, direction: Direction)
    requires
        from.spec_step(direction) is Some,
    ensures
        adjacent(from, from.spec_step(direction).unwrap()),
        from.spec_direction_to(&from.spec_step(direction).unwrap()) == direction,
        from.spec_step(direction).unwrap().spec_direction_to(&from) == direction.spec_opposite(),
        from.spec_step(direction).unwrap().spec_step(direction.spec_opposite()) == Some(from),
{
}

} // verus!
