use vstd::prelude::*;

verus! {

/// Number of columns on the board.
pub const HORIZONTAL_SLOT_COUNT: usize = 7;

/// Number of rows on the board.
pub const VERTICAL_SLOT_COUNT: usize = 6;

/// Number of slots on the board.
pub const SLOT_COUNT: usize = HORIZONTAL_SLOT_COUNT * VERTICAL_SLOT_COUNT;

/// A column index.
pub type Column = usize;

/// A (column, row) coordinate; row 0 is the bottom of the board.
#[derive(Clone, Copy, Debug, PartialEq, Eq, Structural)]
pub struct Position {
    pub x: usize,
    pub y: usize,
}

/// The position whose flat index is `i`.
pub open spec fn position_of_index(i: int) -> Position {
    Position { x: (i % HORIZONTAL_SLOT_COUNT as int) as usize, y: (i / HORIZONTAL_SLOT_COUNT as int) as usize }
}

/// The position visited at step `i` of a column-major scan: every row of
/// column 0 from the bottom up, then column 1, and so on.
pub open spec fn scan_position(i: int) -> Position {
    Position { x: (i / VERTICAL_SLOT_COUNT as int) as usize, y: (i % VERTICAL_SLOT_COUNT as int) as usize }
}

/// The step of the column-major scan that visits (x, y).
pub open spec fn scan_step(x: int, y: int) -> int {
    VERTICAL_SLOT_COUNT * x + y
}

/// The flat index of (x, y).
pub open spec fn index_of(x: int, y: int) -> int {
    x + HORIZONTAL_SLOT_COUNT * y
}

impl Position {
    /// Whether the position lies on the board.
    pub open spec fn valid(self) -> bool {
        self.x < HORIZONTAL_SLOT_COUNT && self.y < VERTICAL_SLOT_COUNT
    }

    /// The flat board index of the position.
    pub open spec fn index(self) -> int {
        index_of(self.x as int, self.y as int)
    }

    pub fn translate(&self) -> (r: usize)
        requires
            self.x + HORIZONTAL_SLOT_COUNT * self.y <= usize::MAX,
        ensures
            r == self.index(),
            self.valid() ==> r < SLOT_COUNT,
    {
        self.x + HORIZONTAL_SLOT_COUNT * self.y
    }

    pub fn from_coord(x: usize, y: usize) -> (r: Self)
        ensures
            r == (Position { x, y }),
    {
        Position { x, y }
    }

    pub fn from_index(idx: usize) -> (r: Self)
        ensures
            r == position_of_index(idx as int),
            r.valid() <==> idx < SLOT_COUNT,
    {
        let mut x: usize = idx;
        let mut y: usize = 0;

        loop
            invariant
                x + HORIZONTAL_SLOT_COUNT * y == idx,
            ensures
                x < HORIZONTAL_SLOT_COUNT,
                x + HORIZONTAL_SLOT_COUNT * y == idx,
            decreases x,
        {
            if x < HORIZONTAL_SLOT_COUNT {
                break;
            }
            x -= HORIZONTAL_SLOT_COUNT;
            y += 1;
        }
        proof {
            lemma_index_decomposition(x as int, y as int);
        }
        Position { x, y }
    }

    /// Shifts the position `i` columns to the right.
    pub fn add_x(self, i: usize) -> (r: Self)
        requires
            self.x + i <= usize::MAX,
        ensures
            r == (Position { x: (self.x + i) as usize, y: self.y }),
    {
        Position { x: self.x + i, ..self }
    }

    /// Shifts the position `i` columns to the left.
    pub fn sub_x(self, i: usize) -> (r: Self)
        requires
            i <= self.x,
        ensures
            r == (Position { x: (self.x - i) as usize, y: self.y }),
    {
        Position { x: self.x - i, ..self }
    }

    /// Shifts the position `i` rows up.
    pub fn add_y(self, i: usize) -> (r: Self)
        requires
            self.y + i <= usize::MAX,
        ensures
            r == (Position { x: self.x, y: (self.y + i) as usize }),
    {
        Position { y: self.y + i, ..self }
    }

    /// Shifts the position `i` rows down.
    pub fn sub_y(self, i: usize) -> (r: Self)
        requires
            i <= self.y,
        ensures
            r == (Position { x: self.x, y: (self.y - i) as usize }),
    {
        Position { y: self.y - i, ..self }
    }
}

/// A flat index splits uniquely into a column below the width and a row.
pub proof fn lemma_index_decomposition(x: int, y: int)
    requires
        0 <= x < HORIZONTAL_SLOT_COUNT,
        0 <= y,
    ensures
        position_of_index(index_of(x, y)) == (Position { x: x as usize, y: y as usize }),
{
    let w = HORIZONTAL_SLOT_COUNT as int;
    assert((x + w * y) % w == x && (x + w * y) / w == y) by {
        vstd::arithmetic::div_mod::lemma_fundamental_div_mod_converse(x + w * y, w, y, x);
    }
}

/// Translating a valid position to its index and back gives the position again.
pub proof fn lemma_round_trip(p: Position)
    requires
        p.valid(),
    ensures
        position_of_index(p.index()) == p,
        0 <= p.index() < SLOT_COUNT,
{
    lemma_index_decomposition(p.x as int, p.y as int);
}

/// Step `i` of the column-major scan visits a position on the board, and
/// the scan visits (x, y) at `scan_step(x, y)`.
pub proof fn lemma_scan_position(i: int)
    requires
        0 <= i < SLOT_COUNT,
    ensures
        scan_position(i).valid(),
        scan_step(scan_position(i).x as int, scan_position(i).y as int) == i,
        0 <= scan_position(i).index() < SLOT_COUNT,
{
}

/// The column-major scan visits (x, y) at `scan_step(x, y)`.
pub proof fn lemma_scan_step(p: Position)
    requires
        p.valid(),
    ensures
        0 <= scan_step(p.x as int, p.y as int) < SLOT_COUNT,
        scan_position(scan_step(p.x as int, p.y as int)) == p,
{
    let v = VERTICAL_SLOT_COUNT as int;
    let s = v * p.x + p.y;
    assert(s % v == p.y && s / v == p.x) by {
        vstd::arithmetic::div_mod::lemma_fundamental_div_mod_converse(s, v, p.x as int, p.y as int);
    }
}

/// Every position of the board, in column-major order: every row of column
/// 0 from the bottom up, then column 1, and so on.
pub fn board_positions() -> (r: [Position; SLOT_COUNT])
    ensures
        forall|i: int| 0 <= i < SLOT_COUNT ==> #[trigger] r@[i] == scan_position(i),
        forall|i: int| 0 <= i < SLOT_COUNT ==> (#[trigger] r@[i]).valid(),
        forall|i: int, j: int|
            0 <= i < SLOT_COUNT && 0 <= j < SLOT_COUNT && i != j ==> #[trigger] r@[i] != #[trigger] r@[j],
        forall|p: Position| p.valid() ==> r@[scan_step(p.x as int, p.y as int)] == p,
{
    let init_pos = Position { x: 0, y: 0 };
    let mut positions = [init_pos; SLOT_COUNT];

    for x in 0..HORIZONTAL_SLOT_COUNT
        invariant
            forall|xx: int, yy: int|
                0 <= xx < x && 0 <= yy < VERTICAL_SLOT_COUNT ==> #[trigger] positions@[scan_step(xx, yy)]
                    == (Position { x: xx as usize, y: yy as usize }),
    {
        for y in 0..VERTICAL_SLOT_COUNT
            invariant
                x < HORIZONTAL_SLOT_COUNT,
                forall|xx: int, yy: int|
                    0 <= xx < x && 0 <= yy < VERTICAL_SLOT_COUNT ==> #[trigger] positions@[scan_step(xx, yy)]
                        == (Position { x: xx as usize, y: yy as usize }),
                forall|yy: int|
                    0 <= yy < y ==> #[trigger] positions@[scan_step(x as int, yy)]
                        == (Position { x: x, y: yy as usize }),
        {
            positions[x * VERTICAL_SLOT_COUNT + y] = Position { x, y };
        }
    }
    assert forall|i: int| 0 <= i < SLOT_COUNT implies #[trigger] positions@[i] == scan_position(i)
        && positions@[i].valid() by {
        lemma_scan_position(i);
    }
    assert forall|p: Position| p.valid() implies positions@[scan_step(p.x as int, p.y as int)] == p by {
        lemma_scan_step(p);
    }
    positions
}

/// The positions of column `x`, from the bottom row up.
pub fn column_positions(x: Column) -> (r: [Position; VERTICAL_SLOT_COUNT])
    ensures
        forall|y: int| 0 <= y < VERTICAL_SLOT_COUNT ==> #[trigger] r@[y] == (Position { x, y: y as usize }),
{
    let mut indexes = [Position { x: 0, y: 0 }; VERTICAL_SLOT_COUNT];

    for y in 0..VERTICAL_SLOT_COUNT
        invariant
            forall|yy: int| 0 <= yy < y ==> #[trigger] indexes@[yy] == (Position { x, y: yy as usize }),
    {
        indexes[y] = Position { x, y };
    }
    indexes
}

} // verus!
