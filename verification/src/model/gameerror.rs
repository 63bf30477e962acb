use vstd::prelude::*;
use vstd::string::*;
use crate::model::class::Class;
use crate::model::orientation::Orientation;
use crate::model::point::Point;
use crate::model::ship::Ship;
use crate::text::{decimal, decimal_digits};

verus! {

/// Why a ship cannot be placed.
#[derive(Debug, Clone, PartialEq)]
pub enum GameError {
    /// The fleet already holds a ship of this kind.
    ShipAlreadyPlaced(Class),
    /// The ship with this origin, axis and length does not lie within the board.
    ShipOutOfBounds(Point, Orientation, u8),
    /// The ship collides with this ship of the fleet.
    ShipOverlaps(Ship),
}

impl GameError {
    /// The sentence that tells a player of the error.
    pub open spec fn rendering(self) -> Seq<char> {
        match self {
            GameError::ShipAlreadyPlaced(class) => class.label()
                + " class ship has already been placed!"@,
            GameError::ShipOutOfBounds(coordinates, orientation, size) =>
                "Ship is not placed (entirely) within the map! Coordinates: "@
                + coordinates.rendering() + ", orientation: "@ + orientation.rendering()
                + ", size: "@ + decimal_digits(size as nat),
            GameError::ShipOverlaps(ship) => "This ship overlaps with ship of class "@
                + ship.class.label() + " at "@ + ship.coordinates.rendering() + " (orientation: "@
                + ship.orientation.rendering() + ")!"@,
        }
    }

    /// Writes the sentence that tells a player of the error.
    pub fn render(&self) -> (s: String)
        ensures
            s@ == self.rendering(),
    {
        match self {
            GameError::ShipAlreadyPlaced(class) => {
                let mut s = class.name();
                s.append(" class ship has already been placed!");
                s
            },
            GameError::ShipOutOfBounds(coordinates, orientation, size) => {
                let mut s = String::from_str(
                    "Ship is not placed (entirely) within the map! Coordinates: ",
                );
                s.append(coordinates.render().as_str());
                s.append(", orientation: ");
                s.append(orientation.render().as_str());
                s.append(", size: ");
                s.append(decimal(*size as u64).as_str());
                s
            },
            GameError::ShipOverlaps(ship) => {
                let mut s = String::from_str("This ship overlaps with ship of class ");
                s.append(ship.class.name().as_str());
                s.append(" at ");
                s.append(ship.coordinates.render().as_str());
                s.append(" (orientation: ");
                s.append(ship.orientation.render().as_str());
                s.append(")!");
                s
            },
        }
    }
}

} // verus!
