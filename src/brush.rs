//! Shapes of the painting brush, as the brush shader identifies them.

use vstd::prelude::*;

verus! {

#[derive(Debug, PartialEq, Eq, Clone, Copy, Structural)]
pub enum BrushShape {
    Square,
    Circle,
}

impl BrushShape {
    /// The value the brush shader sees for this shape.
    pub open spec fn code_spec(self) -> u32 {
        match self {
            BrushShape::Square => 0,
            BrushShape::Circle => 1,
        }
    }

    pub fn code(self) -> (r: u32)
        ensures
            r == self.code_spec(),
    {
        match self {
            BrushShape::Square => 0,
            BrushShape::Circle => 1,
        }
    }
}

} // verus!
