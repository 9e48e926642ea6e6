use vstd::prelude::*;

use crate::errors::RobotError;
use crate::field::Field;
use crate::position::{Direction, Position};
use crate::text::{decimal, int_text};

verus! {

/// The robot: where it stands and where it faces.
#[derive(Clone, Copy, Debug, PartialEq, Eq, Structural)]
pub struct Robot {
    pub position: Position,
    pub direction: Direction,
}

impl Robot {
    /// The point one step ahead of the robot, in its heading.
    pub open spec fn ahead(self) -> (int, int) {
        let x = self.position.x as int;
        let y = self.position.y as int;
        match self.direction {
            Direction::NORTH => (x, y + 1),
            Direction::WEST => (x - 1, y),
            Direction::EAST => (x + 1, y),
            Direction::SOUTH => (x, y - 1),
        }
    }

    /// Whether the point ahead has coordinates of the machine's size.
    pub open spec fn can_step(self) -> bool {
        isize::MIN <= self.ahead().0 <= isize::MAX && isize::MIN <= self.ahead().1 <= isize::MAX
    }

    /// The report of the robot's state: `x,y,HEADING`.
    pub open spec fn report_text(self) -> Seq<char> {
        int_text(self.position.x as int) + seq![','] + int_text(self.position.y as int) + seq![
            ',',
        ] + self.direction.text()
    }

    /// Calculate the next position for the robot.
    pub fn next_position(&self) -> (r: Position)
        requires
            self.can_step(),
        ensures
            r.x == self.ahead().0,
            r.y == self.ahead().1,
    {
        match self.direction {
            Direction::NORTH => Position { x: self.position.x, y: self.position.y + 1 },
            Direction::WEST => Position { x: self.position.x - 1, y: self.position.y },
            Direction::EAST => Position { x: self.position.x + 1, y: self.position.y },
            Direction::SOUTH => Position { x: self.position.x, y: self.position.y - 1 },
        }
    }

    /// Move robot, fail if goes out of field.
    ///
    /// A point whose coordinates do not fit the machine's size lies outside
    /// every field, so such a step is refused like any other.
    pub fn move_it(&mut self, field: &Field) -> (r: Result<(), RobotError>)
        ensures
            field.holds(old(self).ahead().0, old(self).ahead().1) ==> r is Ok
                && final(self).position.x == old(self).ahead().0
                && final(self).position.y == old(self).ahead().1
                && final(self).direction == old(self).direction,
            !field.holds(old(self).ahead().0, old(self).ahead().1) ==> (r matches Err(
                RobotError::RobotOutOfField,
            )) && *final(self) == *old(self),
    {
        if !self.fits_step() {
            return Err(RobotError::RobotOutOfField);
        }
        let pos = self.next_position();
        if !field.position_in_field(&pos) {
            return Err(RobotError::RobotOutOfField);
        }
        self.position = pos;
        Ok(())
    }

    /// Whether the point ahead has coordinates of the machine's size.
    fn fits_step(&self) -> (r: bool)
        ensures
            r == self.can_step(),
    {
        match self.direction {
            Direction::NORTH => self.position.y < isize::MAX,
            Direction::WEST => self.position.x > isize::MIN,
            Direction::EAST => self.position.x < isize::MAX,
            Direction::SOUTH => self.position.y > isize::MIN,
        }
    }

    /// Get report for the current status of robot.
    pub fn report(&self) -> (r: String)
        ensures
            r@ == self.report_text(),
    {
        let mut r = decimal(self.position.x);
        r.append(",");
        r.append(decimal(self.position.y).as_str());
        r.append(",");
        r.append(self.direction.name());
        proof {
            reveal_strlit(",");
        }
        r
    }
}

} // verus!
