use vstd::prelude::*;
use vstd::string::*;
use crate::text::{decimal, decimal_digits};

verus! {

/// The extent of a board in cells.
#[derive(Debug, Clone, Copy, PartialEq, Eq, Structural)]
pub struct Size {
    pub width: u8,
    pub height: u8,
}

impl Default for Size {
    /// The canonical board is ten by ten.
    fn default() -> (s: Size)
        ensures
            s == (Size { width: 10, height: 10 }),
    {
        Size::new(10, 10)
    }
}

impl Size {
    /// The extent of a board with the given numbers of columns and rows.
    pub fn new(width: u8, height: u8) -> (s: Size)
        ensures
            s == (Size { width, height }),
    {
        Size { width, height }
    }

    /// The extent with width and height exchanged.
    pub open spec fn flipped(self) -> Size {
        Size { width: self.height, height: self.width }
    }

    /// The extent with width and height exchanged.
    pub fn transposed(self) -> (s: Size)
        ensures
            s == self.flipped(),
    {
        Size::new(self.height, self.width)
    }

    /// The text `[width X height]`.
    pub open spec fn rendering(self) -> Seq<char> {
        seq!['['] + decimal_digits(self.width as nat) + seq![' ', 'X', ' '] + decimal_digits(
            self.height as nat,
        ) + seq![']']
    }

    /// Writes the extent as `[width X height]`.
    pub fn render(&self) -> (s: String)
        ensures
            s@ == self.rendering(),
    {
        proof {
            reveal_strlit("[");
            reveal_strlit(" X ");
            reveal_strlit("]");
        }
        let mut s = String::from_str("[");
        s.append(decimal(self.width as u64).as_str());
        s.append(" X ");
        s.append(decimal(self.height as u64).as_str());
        s.append("]");
        assert(s@ =~= self.rendering());
        s
    }
}

} // verus!
