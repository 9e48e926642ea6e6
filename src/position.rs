use vstd::prelude::*;

use crate::errors::RobotError;
use crate::text::{same_text, trim_str, trimmed};

verus! {

/// A point of the grid.
#[derive(Clone, Copy, Debug, PartialEq, Eq, Structural)]
pub struct Position {
    pub x: isize,
    pub y: isize,
}

/// One of the four compass headings.
#[derive(Clone, Copy, Debug, PartialEq, Eq, Structural)]
pub enum Direction {
    NORTH,
    WEST,
    EAST,
    SOUTH,
}

impl Direction {
    /// The heading a quarter turn counter-clockwise from this one.
    pub open spec fn left_of(self) -> Direction {
        match self {
            Direction::NORTH => Direction::WEST,
            Direction::WEST => Direction::SOUTH,
            Direction::SOUTH => Direction::EAST,
            Direction::EAST => Direction::NORTH,
        }
    }

    /// The heading a quarter turn clockwise from this one.
    pub open spec fn right_of(self) -> Direction {
        match self {
            Direction::NORTH => Direction::EAST,
            Direction::EAST => Direction::SOUTH,
            Direction::SOUTH => Direction::WEST,
            Direction::WEST => Direction::NORTH,
        }
    }

    /// The canonical upper-case name of the heading.
    pub open spec fn text(self) -> Seq<char> {
        match self {
            Direction::NORTH => "NORTH"@,
            Direction::WEST => "WEST"@,
            Direction::EAST => "EAST"@,
            Direction::SOUTH => "SOUTH"@,
        }
    }

    /// Get direction at -90 deg.
    pub fn get_left(&self) -> (r: Direction)
        ensures
            r == self.left_of(),
    {
        match self {
            Direction::NORTH => Direction::WEST,
            Direction::WEST => Direction::SOUTH,
            Direction::SOUTH => Direction::EAST,
            Direction::EAST => Direction::NORTH,
        }
    }

    /// Get direction at +90 deg.
    pub fn get_right(&self) -> (r: Direction)
        ensures
            r == self.right_of(),
    {
        match self {
            Direction::NORTH => Direction::EAST,
            Direction::WEST => Direction::NORTH,
            Direction::SOUTH => Direction::WEST,
            Direction::EAST => Direction::SOUTH,
        }
    }

    /// The canonical upper-case name of the heading.
    pub fn name(&self) -> (r: &'static str)
        ensures
            r@ == self.text(),
    {
        match self {
            Direction::NORTH => "NORTH",
            Direction::WEST => "WEST",
            Direction::EAST => "EAST",
            Direction::SOUTH => "SOUTH",
        }
    }

    /// The canonical name, as an owned string.
    pub fn to_string(&self) -> (r: String)
        ensures
            r@ == self.text(),
    {
        String::from_str(self.name())
    }
}

/// A quarter turn one way undoes a quarter turn the other way, and four
/// quarter turns the same way come back to the start.
pub proof fn lemma_rotations(d: Direction)
    ensures
        d.right_of().left_of() == d,
        d.left_of().right_of() == d,
        d.right_of().right_of().right_of().right_of() == d,
        d.left_of().left_of().left_of().left_of() == d,
{
}

/// The heading whose canonical name is `t`, if any.
pub open spec fn direction_named(t: Seq<char>) -> Option<Direction> {
    if t == "NORTH"@ {
        Some(Direction::NORTH)
    } else if t == "WEST"@ {
        Some(Direction::WEST)
    } else if t == "EAST"@ {
        Some(Direction::EAST)
    } else if t == "SOUTH"@ {
        Some(Direction::SOUTH)
    } else {
        None
    }
}

/// The heading whose canonical name is exactly `t`, if any.
pub fn find_direction(t: &str) -> (r: Option<Direction>)
    ensures
        r == direction_named(t@),
{
    if same_text(t, "NORTH") {
        Some(Direction::NORTH)
    } else if same_text(t, "WEST") {
        Some(Direction::WEST)
    } else if same_text(t, "EAST") {
        Some(Direction::EAST)
    } else if same_text(t, "SOUTH") {
        Some(Direction::SOUTH)
    } else {
        None
    }
}

/// Parses a heading from its canonical name, ignoring surrounding
/// whitespace.
pub fn parse_direction(s: &str) -> (r: Result<Direction, RobotError>)
    ensures
        match direction_named(trimmed(s@)) {
            Some(d) => r == Ok::<Direction, RobotError>(d),
            None => match r {
                Err(RobotError::ParseDirectionError { direction }) => direction@ == trimmed(s@),
                _ => false,
            },
        },
{
    let val = trim_str(s);
    match find_direction(val) {
        Some(d) => Ok(d),
        None => Err(RobotError::ParseDirectionError { direction: String::from_str(val) }),
    }
}

impl std::str::FromStr for Direction {
    type Err = RobotError;

    fn from_str(s: &str) -> (r: Result<Direction, RobotError>)
        ensures
            match direction_named(trimmed(s@)) {
                Some(d) => r == Ok::<Direction, RobotError>(d),
                None => match r {
                    Err(RobotError::ParseDirectionError { direction }) => direction@ == trimmed(s@),
                    _ => false,
                },
            },
    {
        parse_direction(s)
    }
}

} // verus!
