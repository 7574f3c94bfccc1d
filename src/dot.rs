//! Grid coordinates and edge-clamped motion.
use vstd::prelude::*;
use crate::dot_screen::DotScreen;

verus! {

/// One LED of the display, addressed by column `x` and row `y`.
#[derive(Clone, Copy, Debug, PartialEq, Eq, Structural)]
pub struct Dot {
    pub x: usize,
    pub y: usize,
}

impl Dot {
    /// The dot lies on the grid.
    pub open spec fn in_grid(self) -> bool {
        self.x < DotScreen::WIDTH && self.y < DotScreen::HEIGHT
    }

    pub open spec fn spec_left(self) -> Dot {
        Dot { x: if self.x > 0 { (self.x - 1) as usize } else { self.x }, y: self.y }
    }

    pub open spec fn spec_right(self) -> Dot {
        Dot { x: if self.x < DotScreen::WIDTH - 1 { (self.x + 1) as usize } else { self.x }, y: self.y }
    }

    pub open spec fn spec_up(self) -> Dot {
        Dot { x: self.x, y: if self.y < DotScreen::HEIGHT - 1 { (self.y + 1) as usize } else { self.y } }
    }

    pub open spec fn spec_down(self) -> Dot {
        Dot { x: self.x, y: if self.y > 0 { (self.y - 1) as usize } else { self.y } }
    }

    /// The dot one column to the left, or this dot at the left edge
    /// (the wall stops the motion).
    pub fn left(&self) -> (r: Self)
        ensures
            r == self.spec_left(),
    {
        let x = if self.x > 0 { self.x - 1 } else { self.x };
        Self { x, y: self.y }
    }

    /// The dot one column to the right, or this dot at the right edge.
    pub fn right(&self) -> (r: Self)
        ensures
            r == self.spec_right(),
    {
        let x = if self.x < DotScreen::WIDTH - 1 { self.x + 1 } else { self.x };
        Self { x, y: self.y }
    }

    /// The dot one row up (towards `y == HEIGHT - 1`), or this dot at that edge.
    pub fn up(&self) -> (r: Self)
        ensures
            r == self.spec_up(),
    {
        let y = if self.y < DotScreen::HEIGHT - 1 { self.y + 1 } else { self.y };
        Self { x: self.x, y }
    }

    /// The dot one row down (towards `y == 0`), or this dot at that edge.
    pub fn down(&self) -> (r: Self)
        ensures
            r == self.spec_down(),
    {
        let y = if self.y > 0 { self.y - 1 } else { self.y };
        Self { x: self.x, y }
    }

    /// Moves this dot one column to the left, unless it is at the left edge.
    pub fn move_left(&mut self)
        ensures
            *final(self) == old(self).spec_left(),
    {
        if self.x > 0 {
            self.x = self.x - 1;
        }
    }

    /// Moves this dot one column to the right, unless it is at the right edge.
    pub fn move_right(&mut self)
        ensures
            *final(self) == old(self).spec_right(),
    {
        if self.x < DotScreen::WIDTH - 1 {
            self.x = self.x + 1;
        }
    }

    /// Moves this dot one row up, unless it is at the upper edge.
    pub fn move_up(&mut self)
        ensures
            *final(self) == old(self).spec_up(),
    {
        if self.y < DotScreen::HEIGHT - 1 {
            self.y = self.y + 1;
        }
    }

    /// Moves this dot one row down, unless it is at the lower edge.
    pub fn move_down(&mut self)
        ensures
            *final(self) == old(self).spec_down(),
    {
        if self.y > 0 {
            self.y = self.y - 1;
        }
    }
}

/// Motion on the grid: away from the edges each step moves exactly one cell
/// in its direction; against an edge the step towards that edge leaves the
/// dot where it is. Every step keeps the dot on the grid.
pub proof fn lemma_motion(d: Dot)
    requires
        d.in_grid(),
    ensures
        d.spec_left().in_grid() && d.spec_right().in_grid(),
        d.spec_up().in_grid() && d.spec_down().in_grid(),
        d.x > 0 ==> d.spec_left() == (Dot { x: (d.x - 1) as usize, y: d.y }),
        d.x < DotScreen::WIDTH - 1 ==> d.spec_right() == (Dot { x: (d.x + 1) as usize, y: d.y }),
        d.y < DotScreen::HEIGHT - 1 ==> d.spec_up() == (Dot { x: d.x, y: (d.y + 1) as usize }),
        d.y > 0 ==> d.spec_down() == (Dot { x: d.x, y: (d.y - 1) as usize }),
        d.x == 0 ==> d.spec_left() == d,
        d.x == DotScreen::WIDTH - 1 ==> d.spec_right() == d,
        d.y == DotScreen::HEIGHT - 1 ==> d.spec_up() == d,
        d.y == 0 ==> d.spec_down() == d,
{
}

} // verus!
