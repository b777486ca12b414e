//! Padding around the four sides of a box, written the way scripts write it: one value for
//! every side, two for top and bottom then right and left, three for top, right and left,
//! then bottom, or four for top, right, bottom and left. The measure of a side is left to
//! the caller.

use vstd::prelude::*;

verus! {

/// Padding of the four sides of a box.
#[derive(Clone, Copy, Debug, PartialEq)]
pub struct PdfPadding<T> {
    pub top: T,
    pub right: T,
    pub bottom: T,
    pub left: T,
}

impl<T: Copy> PdfPadding<T> {
    /// The sides in the order top, right, bottom, left.
    pub open spec fn sides(self) -> (T, T, T, T) {
        (self.top, self.right, self.bottom, self.left)
    }

    /// Creates padding from each of its sides.
    pub fn new(top: T, right: T, bottom: T, left: T) -> (r: Self)
        ensures
            r.sides() == (top, right, bottom, left),
    {
        PdfPadding { top, right, bottom, left }
    }

    /// Creates padding with the same top and bottom, and the same right and left.
    pub fn from_pair(top_bottom: T, right_left: T) -> (r: Self)
        ensures
            r.sides() == (top_bottom, right_left, top_bottom, right_left),
    {
        Self::new(top_bottom, right_left, top_bottom, right_left)
    }

    /// Creates padding with the same right and left.
    pub fn from_triple(top: T, right_left: T, bottom: T) -> (r: Self)
        ensures
            r.sides() == (top, right_left, bottom, right_left),
    {
        Self::new(top, right_left, bottom, right_left)
    }

    /// Creates padding that is the same on every side.
    pub fn from_single(padding: T) -> (r: Self)
        ensures
            r.sides() == (padding, padding, padding, padding),
    {
        Self::new(padding, padding, padding, padding)
    }

    /// Reads padding from a list of values: four or more give top, right, bottom and left
    /// (the rest are ignored), three give top, right and left, and bottom, two give top and
    /// bottom, and right and left, and one gives every side. An empty list gives none.
    pub fn from_values(values: &Vec<T>) -> (r: Option<Self>)
        ensures
            r is Some == (values@.len() > 0),
            values@.len() >= 4 ==> r == Some(Self::new_spec(values@[0], values@[1], values@[2], values@[3])),
            values@.len() == 3 ==> r == Some(Self::new_spec(values@[0], values@[1], values@[2], values@[1])),
            values@.len() == 2 ==> r == Some(Self::new_spec(values@[0], values@[1], values@[0], values@[1])),
            values@.len() == 1 ==> r == Some(Self::new_spec(values@[0], values@[0], values@[0], values@[0])),
    {
        let n = values.len();
        if n >= 4 {
            Some(Self::new(values[0], values[1], values[2], values[3]))
        } else if n == 3 {
            Some(Self::from_triple(values[0], values[1], values[2]))
        } else if n == 2 {
            Some(Self::from_pair(values[0], values[1]))
        } else if n == 1 {
            Some(Self::from_single(values[0]))
        } else {
            None
        }
    }

    /// The padding with these sides: top, right, bottom and left.
    pub open spec fn new_spec(top: T, right: T, bottom: T, left: T) -> Self {
        PdfPadding { top, right, bottom, left }
    }
}

} // verus!
