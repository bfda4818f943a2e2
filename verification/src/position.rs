use vstd::prelude::*;

verus! {

/// The topmost row a cursor can stand on. Rows are counted from one: row
/// `k` is the `k`-th line of the list.
pub const FIRST_ROW: usize = 1;

/// A cursor: a column, a row, and the last row it may move down to.
#[derive(Clone, Copy, Debug, PartialEq, Eq, Structural)]
pub struct Position {
    pub x: usize,
    pub y: usize,
    pub max_y: usize,
}

impl Position {
    /// The row lies between the first row and the bound.
    pub open spec fn in_bounds(self) -> bool {
        FIRST_ROW <= self.y <= self.max_y
    }

    /// The cursor one row up; unchanged on the first row or above it.
    pub open spec fn moved_up(self) -> Position {
        if self.y > FIRST_ROW {
            Position { y: (self.y - 1) as usize, ..self }
        } else {
            self
        }
    }

    /// The cursor one row down; unchanged once it has reached the bound.
    pub open spec fn moved_down(self) -> Position {
        if self.y < self.max_y {
            Position { y: (self.y + 1) as usize, ..self }
        } else {
            self
        }
    }

    /// The cursor one column left; unchanged in column zero.
    pub open spec fn moved_left(self) -> Position {
        if self.x > 0 {
            Position { x: (self.x - 1) as usize, ..self }
        } else {
            self
        }
    }

    /// The cursor one column right.
    pub open spec fn moved_right(self) -> Position {
        Position { x: (self.x + 1) as usize, ..self }
    }

    /// The cursor after `n` moves up.
    pub open spec fn moved_up_by(self, n: nat) -> Position
        decreases n,
    {
        if n == 0 {
            self
        } else {
            self.moved_up_by((n - 1) as nat).moved_up()
        }
    }

    /// The cursor after `n` moves down.
    pub open spec fn moved_down_by(self, n: nat) -> Position
        decreases n,
    {
        if n == 0 {
            self
        } else {
            self.moved_down_by((n - 1) as nat).moved_down()
        }
    }

    /// A cursor at column `x`, row `y`, bounded by the first row.
    pub fn new(x: usize, y: usize) -> (p: Position)
        ensures
            p == (Position { x, y, max_y: FIRST_ROW }),
    {
        Position { x, y, max_y: 1 }
    }

    /// Moves the cursor to column `x`, row `y`; the bound stays.
    pub fn change(&mut self, x: usize, y: usize)
        ensures
            *final(self) == (Position { x, y, max_y: old(self).max_y }),
    {
        self.x = x;
        self.y = y;
    }

    /// Replaces the bound; the cursor stays where it is.
    pub fn change_max(&mut self, max_y: usize)
        ensures
            *final(self) == (Position { max_y, ..*old(self) }),
    {
        self.max_y = max_y;
    }

    /// One row up, unless the cursor is on the first row or above it.
    pub fn up(&mut self)
        ensures
            *final(self) == old(self).moved_up(),
    {
        if self.y > FIRST_ROW {
            self.y = self.y - 1;
        }
    }

    /// One row down, unless the cursor has reached the bound.
    pub fn down(&mut self)
        ensures
            *final(self) == old(self).moved_down(),
    {
        if self.y < self.max_y {
            self.y = self.y + 1;
        }
    }

    /// One column left, unless the cursor is in column zero.
    pub fn left(&mut self)
        ensures
            *final(self) == old(self).moved_left(),
    {
        if self.x != 0 {
            self.x = self.x - 1;
        }
    }

    /// One column right.
    pub fn right(&mut self)
        requires
            old(self).x < usize::MAX,
        ensures
            *final(self) == old(self).moved_right(),
    {
        self.x = self.x + 1;
    }

    /// However often a cursor within its bound moves down, it stops at the
    /// bound and never passes it: after `n` moves it is `n` rows further
    /// down, or on the bound if that is nearer. Only the row changes.
    pub proof fn lemma_down_stops_at_bound(self, n: nat)
        requires
            self.y <= self.max_y,
        ensures
            self.moved_down_by(n).y == if self.y + n <= self.max_y {
                self.y + n
            } else {
                self.max_y as int
            },
            self.moved_down_by(n).y <= self.max_y,
            self.moved_down_by(n) == (Position { y: self.moved_down_by(n).y, ..self }),
        decreases n,
    {
        if n > 0 {
            self.lemma_down_stops_at_bound((n - 1) as nat);
        }
    }

    /// However often a cursor on or below the first row moves up, it stops
    /// at the first row and never passes it: after `n` moves it is `n` rows
    /// further up, or on the first row if that is nearer. Only the row
    /// changes.
    pub proof fn lemma_up_stops_at_first_row(self, n: nat)
        requires
            FIRST_ROW <= self.y,
        ensures
            self.moved_up_by(n).y == if self.y - n >= FIRST_ROW {
                self.y - n
            } else {
                FIRST_ROW as int
            },
            self.moved_up_by(n).y >= FIRST_ROW,
            self.moved_up_by(n) == (Position { y: self.moved_up_by(n).y, ..self }),
        decreases n,
    {
        if n > 0 {
            self.lemma_up_stops_at_first_row((n - 1) as nat);
        }
    }

    /// Once clamped, a cursor stays: moving down on the bound, or up on the
    /// first row, changes nothing, and so does doing it again.
    pub proof fn lemma_clamped_moves_change_nothing(self)
        ensures
            self.y == self.max_y ==> self.moved_down() == self,
            self.y == FIRST_ROW ==> self.moved_up() == self,
            self.moved_down().y >= self.max_y ==> self.moved_down().moved_down()
                == self.moved_down(),
            self.moved_up().y <= FIRST_ROW ==> self.moved_up().moved_up() == self.moved_up(),
    {
    }

    /// Moving up or down keeps a cursor between the first row and its bound.
    pub proof fn lemma_moves_keep_bounds(self)
        requires
            self.in_bounds(),
        ensures
            self.moved_up().in_bounds(),
            self.moved_down().in_bounds(),
    {
    }
}

} // verus!
