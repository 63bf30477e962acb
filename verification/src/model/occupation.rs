use vstd::prelude::*;
use vstd::string::*;
use crate::model::class::Class;

verus! {

/// What one cell of a board shows.
#[derive(Debug, Clone, Copy, PartialEq, Eq)]
pub enum Occupation {
    /// A cell of a ship afloat, with whether that cell has been hit.
    Ship(Class, bool),
    /// A cell of a sunk ship.
    Sunk(Class),
    Empty,
}

impl Occupation {
    /// The three characters that draw the cell.
    pub open spec fn rendering(self) -> Seq<char> {
        match self {
            Occupation::Ship(class, hit) => if hit {
                "["@ + class.token() + "]"@
            } else {
                " "@ + class.token() + " "@
            },
            Occupation::Sunk(class) => "↓"@ + class.token() + "↓"@,
            Occupation::Empty => "   "@,
        }
    }

    /// Draws the cell: the ship's letter in brackets where it was hit, between
    /// blanks where it was not, between arrows where the ship is sunk, and
    /// blanks for open water.
    pub fn render(&self) -> (s: String)
        ensures
            s@ == self.rendering(),
    {
        match self {
            Occupation::Ship(class, hit) => {
                if *hit {
                    let mut s = String::from_str("[");
                    s.append(class.map_token());
                    s.append("]");
                    s
                } else {
                    let mut s = String::from_str(" ");
                    s.append(class.map_token());
                    s.append(" ");
                    s
                }
            },
            Occupation::Sunk(class) => {
                let mut s = String::from_str("↓");
                s.append(class.map_token());
                s.append("↓");
                s
            },
            Occupation::Empty => String::from_str("   "),
        }
    }
}

} // verus!
