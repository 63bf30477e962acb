use vstd::prelude::*;
use vstd::string::*;

verus! {

/// The axis along which a ship lies.
#[derive(Debug, Clone, Copy, PartialEq, Eq, Structural)]
pub enum Orientation {
    Horizontal,
    Vertical,
}

impl Orientation {
    /// The other axis.
    pub open spec fn flipped(self) -> Orientation {
        match self {
            Orientation::Horizontal => Orientation::Vertical,
            Orientation::Vertical => Orientation::Horizontal,
        }
    }

    /// The other axis.
    pub fn transposed(&self) -> (o: Orientation)
        ensures
            o == self.flipped(),
    {
        match self {
            Orientation::Horizontal => Orientation::Vertical,
            Orientation::Vertical => Orientation::Horizontal,
        }
    }

    /// The word by which the axis is written on the wire.
    pub open spec fn rendering(self) -> Seq<char> {
        match self {
            Orientation::Horizontal => "Horizontal"@,
            Orientation::Vertical => "Vertical"@,
        }
    }

    /// Writes the axis as `Horizontal` or `Vertical`.
    pub fn render(&self) -> (s: String)
        ensures
            s@ == self.rendering(),
    {
        match self {
            Orientation::Horizontal => String::from_str("Horizontal"),
            Orientation::Vertical => String::from_str("Vertical"),
        }
    }
}

/// Turning an axis twice gives the axis back.
pub proof fn orientation_flipped_twice(o: Orientation)
    ensures
        o.flipped().flipped() == o,
        o.flipped() != o,
{
}

} // verus!
