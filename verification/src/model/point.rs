use vstd::prelude::*;
use vstd::string::*;
use crate::text::{decimal, decimal_digits};

verus! {

/// A cell of the board, by column `x` and row `y`.
#[derive(Debug, Clone, Copy, PartialEq, Eq, Structural)]
pub struct Point {
    pub x: u8,
    pub y: u8,
}

impl Point {
    /// The cell in column `x` and row `y`.
    pub fn new(x: u8, y: u8) -> (p: Point)
        ensures
            p == (Point { x, y }),
    {
        Point { x, y }
    }

    /// The cell mirrored at the main diagonal.
    pub open spec fn flipped(self) -> Point {
        Point { x: self.y, y: self.x }
    }

    /// The cell mirrored at the main diagonal.
    pub fn transposed(self) -> (p: Point)
        ensures
            p == self.flipped(),
    {
        Point::new(self.y, self.x)
    }

    /// The text `[x; y]`.
    pub open spec fn rendering(self) -> Seq<char> {
        seq!['['] + decimal_digits(self.x as nat) + seq![';', ' '] + decimal_digits(self.y as nat)
            + seq![']']
    }

    /// The JSON object of the cell: `{"x":x,"y":y}`.
    pub open spec fn json_text(self) -> Seq<char> {
        "{\"x\":"@ + decimal_digits(self.x as nat) + ",\"y\":"@ + decimal_digits(self.y as nat)
            + "}"@
    }

    /// Writes the cell as a JSON object with the members `x` and `y`.
    pub fn to_json(&self) -> (s: String)
        ensures
            s@ == self.json_text(),
    {
        let mut s = String::from_str("{\"x\":");
        s.append(decimal(self.x as u64).as_str());
        s.append(",\"y\":");
        s.append(decimal(self.y as u64).as_str());
        s.append("}");
        s
    }

    /// Writes the cell as `[x; y]`.
    pub fn render(&self) -> (s: String)
        ensures
            s@ == self.rendering(),
    {
        proof {
            reveal_strlit("[");
            reveal_strlit("; ");
            reveal_strlit("]");
        }
        let mut s = String::from_str("[");
        s.append(decimal(self.x as u64).as_str());
        s.append("; ");
        s.append(decimal(self.y as u64).as_str());
        s.append("]");
        assert(s@ =~= self.rendering());
        s
    }
}

/// Mirroring a cell twice gives the cell back.
pub proof fn point_flipped_twice(p: Point)
    ensures
        p.flipped().flipped() == p,
{
}

} // verus!
