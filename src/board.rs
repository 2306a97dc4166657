use vstd::prelude::*;

use crate::events::TokenPlaced;
use crate::position::{
    board_positions, column_positions, index_of, lemma_round_trip, lemma_scan_position,
    position_of_index, scan_position, Column,
    Position, HORIZONTAL_SLOT_COUNT, SLOT_COUNT, VERTICAL_SLOT_COUNT,
};

verus! {

/// The mark a player drops into the board.
#[derive(Clone, Copy, Debug, PartialEq, Eq, Structural)]
pub enum Token {
    Red,
    Yellow,
}

/// One cell of the board.
#[derive(Clone, Copy, Debug, PartialEq, Eq, Structural)]
pub enum Slot {
    Empty,
    Occupied(Token),
}

impl Slot {
    pub fn token(self) -> (r: Option<Token>)
        ensures
            r == (match self {
                Slot::Empty => None,
                Slot::Occupied(t) => Some(t),
            }),
    {
        match self {
            Slot::Empty => None,
            Slot::Occupied(p) => Some(p),
        }
    }
}

/// The grid, addressed by `Position::translate`.
pub type Board = [Slot; SLOT_COUNT];

/// A player: a name, which identifies the player, and the token it plays.
#[derive(Clone, Debug, PartialEq, Eq)]
pub struct Player {
    pub name: String,
    pub token: Token,
}

/// `a` and `b` hold the same name and token.
pub open spec fn same_player(a: Player, b: Player) -> bool {
    a.name@ == b.name@ && a.token == b.token
}

/// A copy of `p`.
pub fn copy_player(p: &Player) -> (r: Player)
    ensures
        same_player(r, *p),
{
    Player { name: p.name.clone(), token: p.token }
}

/// The board with every slot empty.
pub open spec fn empty_seq() -> Seq<Slot> {
    Seq::new(SLOT_COUNT as nat, |i: int| Slot::Empty)
}

pub fn empty_board() -> (r: Board)
    ensures
        r@ == empty_seq(),
{
    let r = [Slot::Empty; SLOT_COUNT];
    assert(r@ =~= empty_seq());
    r
}

/// The slot at column `x`, row `y`.
pub open spec fn slot_at(b: Seq<Slot>, x: int, y: int) -> Slot {
    b[index_of(x, y)]
}

/// The four slots starting at (x, y) and stepping by (dx, dy) lie on the
/// board and all equal the occupied slot at (x, y).
pub open spec fn line_from(b: Seq<Slot>, x: int, y: int, dx: int, dy: int) -> bool {
    &&& 0 <= x + 3 * dx < HORIZONTAL_SLOT_COUNT
    &&& 0 <= y + 3 * dy < VERTICAL_SLOT_COUNT
    &&& slot_at(b, x + dx, y + dy) == slot_at(b, x, y)
    &&& slot_at(b, x + 2 * dx, y + 2 * dy) == slot_at(b, x, y)
    &&& slot_at(b, x + 3 * dx, y + 3 * dy) == slot_at(b, x, y)
}

/// The slot at index `i` is occupied and anchors a line of four going right,
/// up, up-right or up-left.
pub open spec fn anchors_line(b: Seq<Slot>, i: int) -> bool {
    let p = position_of_index(i);
    let (x, y) = (p.x as int, p.y as int);
    &&& b[i] is Occupied
    &&& {
        ||| line_from(b, x, y, 1, 0)
        ||| line_from(b, x, y, 0, 1)
        ||| line_from(b, x, y, 1, 1)
        ||| line_from(b, x, y, -1, 1)
    }
}

/// The token of the first anchor of a line that the column-major scan meets
/// at step `i` or later.
pub open spec fn winner_from(b: Seq<Slot>, i: int) -> Option<Token>
    decreases SLOT_COUNT - i,
{
    if i < 0 || i >= SLOT_COUNT {
        None
    } else if anchors_line(b, scan_position(i).index()) {
        Some(b[scan_position(i).index()]->Occupied_0)
    } else {
        winner_from(b, i + 1)
    }
}

/// The token that has four in a row, found by scanning the anchors in
/// column-major order; `None` when there is none.
pub open spec fn winning_token(b: Seq<Slot>) -> Option<Token> {
    winner_from(b, 0)
}

/// The player reported for `winning_token`.
pub open spec fn winner_of<'a>(b: Seq<Slot>, player1: &'a Player, player2: &'a Player) -> Option<&'a Player> {
    match winning_token(b) {
        None => None,
        Some(t) => Some(if player1.token == t { player1 } else { player2 }),
    }
}

/// Whether the slot at `pos` is occupied and starts a line of four going
/// right, up, up-right or up-left.
fn anchors_line_at(board: &Board, pos: Position) -> (r: bool)
    requires
        pos.valid(),
    ensures
        r == anchors_line(board@, pos.index()),
{
    proof {
        lemma_round_trip(pos);
    }
    let slot = board[pos.translate()];
    if slot == Slot::Empty {
        return false;
    }

    let on_right_line = pos.x + 3 < HORIZONTAL_SLOT_COUNT
        && board[pos.add_x(1).translate()] == slot
        && board[pos.add_x(2).translate()] == slot
        && board[pos.add_x(3).translate()] == slot;

    let on_top_line = pos.y + 3 < VERTICAL_SLOT_COUNT
        && board[pos.add_y(1).translate()] == slot
        && board[pos.add_y(2).translate()] == slot
        && board[pos.add_y(3).translate()] == slot;

    let on_up_right_line = pos.x + 3 < HORIZONTAL_SLOT_COUNT
        && pos.y + 3 < VERTICAL_SLOT_COUNT
        && board[pos.add_x(1).add_y(1).translate()] == slot
        && board[pos.add_x(2).add_y(2).translate()] == slot
        && board[pos.add_x(3).add_y(3).translate()] == slot;

    let on_up_left_line = pos.x >= 3
        && pos.y + 3 < VERTICAL_SLOT_COUNT
        && board[pos.sub_x(1).add_y(1).translate()] == slot
        && board[pos.sub_x(2).add_y(2).translate()] == slot
        && board[pos.sub_x(3).add_y(3).translate()] == slot;

    on_right_line || on_top_line || on_up_right_line || on_up_left_line
}

pub fn check_game_over<'a>(board: &Board, player1: &'a Player, player2: &'a Player) -> (r: Option<&'a Player>)
    ensures
        r == winner_of(board@, player1, player2),
{
    let positions = board_positions();
    let mut i: usize = 0;
    while i < SLOT_COUNT
        invariant
            i <= SLOT_COUNT,
            winner_from(board@, i as int) == winning_token(board@),
            forall|j: int| 0 <= j < SLOT_COUNT ==> #[trigger] positions@[j] == scan_position(j),
            forall|j: int| 0 <= j < SLOT_COUNT ==> (#[trigger] positions@[j]).valid(),
        decreases SLOT_COUNT - i,
    {
        let pos = positions[i];
        if anchors_line_at(board, pos) {
            if let Slot::Occupied(token) = board[pos.translate()] {
                if player1.token == token {
                    return Some(player1);
                } else {
                    return Some(player2);
                }
            }
        }
        i += 1;
    }
    None
}

/// Every slot of column `x` is occupied.
pub open spec fn column_full(b: Seq<Slot>, x: int) -> bool {
    forall|y: int| 0 <= y < VERTICAL_SLOT_COUNT ==> #[trigger] slot_at(b, x, y) is Occupied
}

/// `x` is a column of the board with room for one more token.
pub open spec fn valid_move(b: Seq<Slot>, x: int) -> bool {
    0 <= x < HORIZONTAL_SLOT_COUNT && !column_full(b, x)
}

/// `b` with `t` in the lowest empty slot of column `x` at row `y` or above;
/// `b` itself when there is none.
pub open spec fn placed_from(b: Seq<Slot>, x: int, t: Token, y: int) -> Seq<Slot>
    decreases VERTICAL_SLOT_COUNT - y,
{
    if y < 0 || y >= VERTICAL_SLOT_COUNT {
        b
    } else if slot_at(b, x, y) is Empty {
        b.update(index_of(x, y), Slot::Occupied(t))
    } else {
        placed_from(b, x, t, y + 1)
    }
}

/// `b` after dropping `t` into column `x`: the lowest empty slot of the
/// column takes it; a full column, or one off the board, leaves `b` as is.
pub open spec fn placed(b: Seq<Slot>, x: int, t: Token) -> Seq<Slot> {
    if 0 <= x < HORIZONTAL_SLOT_COUNT {
        placed_from(b, x, t, 0)
    } else {
        b
    }
}

/// Drops the event's token into the lowest empty slot of its column. A full
/// column, or a column off the board, leaves the board unchanged.
pub fn project_board(boards: &mut Board, event: &TokenPlaced)
    ensures
        final(boards)@ == placed(old(boards)@, event.column as int, event.token),
{
    if event.column >= HORIZONTAL_SLOT_COUNT {
        return;
    }
    let positions = column_positions(event.column);
    let mut y: usize = 0;
    while y < VERTICAL_SLOT_COUNT
        invariant
            y <= VERTICAL_SLOT_COUNT,
            event.column < HORIZONTAL_SLOT_COUNT,
            boards@ == old(boards)@,
            forall|j: int|
                0 <= j < VERTICAL_SLOT_COUNT ==> #[trigger] positions@[j] == (Position {
                    x: event.column,
                    y: j as usize,
                }),
            placed_from(old(boards)@, event.column as int, event.token, y as int) == placed(
                old(boards)@,
                event.column as int,
                event.token,
            ),
        decreases VERTICAL_SLOT_COUNT - y,
    {
        let idx = positions[y].translate();
        if boards[idx] == Slot::Empty {
            boards[idx] = Slot::Occupied(event.token);
            return;
        }
        y += 1;
    }
}

/// `b` after dropping the tokens `ts` into column `x`, in order.
pub open spec fn placed_all(b: Seq<Slot>, x: int, ts: Seq<Token>) -> Seq<Slot>
    decreases ts.len(),
{
    if ts.len() == 0 {
        b
    } else {
        placed(placed_all(b, x, ts.drop_last()), x, ts.last())
    }
}

/// The empty board has no winner, whoever plays.
pub proof fn lemma_no_winner_on_empty_board(player1: &Player, player2: &Player)
    ensures
        winning_token(empty_seq()) is None,
        winner_of(empty_seq(), player1, player2) is None,
{
    lemma_no_winner_from_empty(0);
}

proof fn lemma_no_winner_from_empty(i: int)
    requires
        0 <= i <= SLOT_COUNT,
    ensures
        winner_from(empty_seq(), i) is None,
    decreases SLOT_COUNT - i,
{
    if i < SLOT_COUNT {
        lemma_scan_position(i);
        lemma_no_winner_from_empty(i + 1);
    }
}

/// Dropping from row `y0` finds the first empty row `k` of the column.
proof fn lemma_placed_from_first_empty(b: Seq<Slot>, x: int, t: Token, y0: int, k: int)
    requires
        0 <= y0 <= k < VERTICAL_SLOT_COUNT,
        forall|y: int| y0 <= y < k ==> #[trigger] slot_at(b, x, y) is Occupied,
        slot_at(b, x, k) is Empty,
    ensures
        placed_from(b, x, t, y0) == b.update(index_of(x, k), Slot::Occupied(t)),
    decreases k - y0,
{
    if y0 < k {
        lemma_placed_from_first_empty(b, x, t, y0 + 1, k);
    }
}

/// Dropping from row `y0` into a column full from there on changes nothing.
proof fn lemma_placed_from_full(b: Seq<Slot>, x: int, t: Token, y0: int)
    requires
        0 <= y0 <= VERTICAL_SLOT_COUNT,
        forall|y: int| y0 <= y < VERTICAL_SLOT_COUNT ==> #[trigger] slot_at(b, x, y) is Occupied,
    ensures
        placed_from(b, x, t, y0) == b,
    decreases VERTICAL_SLOT_COUNT - y0,
{
    if y0 < VERTICAL_SLOT_COUNT {
        lemma_placed_from_full(b, x, t, y0 + 1);
    }
}

/// Dropping keeps the number of slots.
proof fn lemma_placed_from_len(b: Seq<Slot>, x: int, t: Token, y0: int)
    requires
        0 <= x < HORIZONTAL_SLOT_COUNT,
        b.len() == SLOT_COUNT,
    ensures
        placed_from(b, x, t, y0).len() == SLOT_COUNT,
    decreases VERTICAL_SLOT_COUNT - y0,
{
    if 0 <= y0 < VERTICAL_SLOT_COUNT && !(slot_at(b, x, y0) is Empty) {
        lemma_placed_from_len(b, x, t, y0 + 1);
    }
}

/// Dropping from row `y0` into a column with an empty row at or above `y0`
/// fills an empty slot of `b`.
proof fn lemma_placed_from_fills(b: Seq<Slot>, x: int, t: Token, y0: int, k: int)
    requires
        0 <= x < HORIZONTAL_SLOT_COUNT,
        b.len() == SLOT_COUNT,
        0 <= y0 <= k < VERTICAL_SLOT_COUNT,
        slot_at(b, x, k) is Empty,
    ensures
        placed_from(b, x, t, y0) != b,
    decreases k - y0,
{
    let i = index_of(x, y0);
    if slot_at(b, x, y0) is Empty {
        assert(placed_from(b, x, t, y0)[i] != b[i]);
    } else {
        lemma_placed_from_fills(b, x, t, y0 + 1, k);
    }
}

/// Gravity: dropping `ts` into an empty column fills exactly its lowest
/// `ts.len()` rows, in the order of `ts`, and leaves the other columns alone.
pub proof fn lemma_gravity(b: Seq<Slot>, x: int, ts: Seq<Token>)
    requires
        b.len() == SLOT_COUNT,
        0 <= x < HORIZONTAL_SLOT_COUNT,
        forall|y: int| 0 <= y < VERTICAL_SLOT_COUNT ==> #[trigger] slot_at(b, x, y) is Empty,
    ensures
        placed_all(b, x, ts).len() == SLOT_COUNT,
        forall|y: int|
            0 <= y < VERTICAL_SLOT_COUNT ==> (#[trigger] slot_at(placed_all(b, x, ts), x, y) is Occupied
                <==> y < ts.len()),
        forall|y: int|
            0 <= y < VERTICAL_SLOT_COUNT && y < ts.len() ==> #[trigger] slot_at(placed_all(b, x, ts), x, y)
                == Slot::Occupied(ts[y]),
        forall|i: int|
            0 <= i < SLOT_COUNT && position_of_index(i).x != x ==> #[trigger] placed_all(b, x, ts)[i]
                == b[i],
    decreases ts.len(),
{
    if ts.len() > 0 {
        let prev = ts.drop_last();
        lemma_gravity(b, x, prev);
        let c = placed_all(b, x, prev);
        let n = prev.len() as int;
        if n < VERTICAL_SLOT_COUNT {
            lemma_placed_from_first_empty(c, x, ts.last(), 0, n);
            let r = c.update(index_of(x, n), Slot::Occupied(ts.last()));
            assert forall|i: int|
                0 <= i < SLOT_COUNT && position_of_index(i).x != x implies #[trigger] r[i] == b[i] by {
                let p = position_of_index(i);
                lemma_round_trip(p);
                if i == index_of(x, n) {
                    crate::position::lemma_index_decomposition(x, n);
                }
            }
            assert forall|y: int| 0 <= y < VERTICAL_SLOT_COUNT && y != n implies #[trigger] slot_at(r, x, y)
                == slot_at(c, x, y) by {
                assert(index_of(x, y) != index_of(x, n));
            }
        } else {
            lemma_placed_from_full(c, x, ts.last(), 0);
        }
    }
}

/// Dropping the same token into the same column twice changes the board each
/// time, as long as the column still has room for the second one.
pub proof fn lemma_repeated_placement_changes(b: Seq<Slot>, x: int, t: Token)
    requires
        b.len() == SLOT_COUNT,
        0 <= x < HORIZONTAL_SLOT_COUNT,
        !column_full(placed(b, x, t), x),
    ensures
        placed(b, x, t) != b,
        placed(placed(b, x, t), x, t) != placed(b, x, t),
{
    let once = placed(b, x, t);
    if column_full(b, x) {
        lemma_placed_from_full(b, x, t, 0);
    }
    let k = choose|y: int| 0 <= y < VERTICAL_SLOT_COUNT && !(slot_at(b, x, y) is Occupied);
    lemma_placed_from_fills(b, x, t, 0, k);
    lemma_placed_from_len(b, x, t, 0);
    let k2 = choose|y: int| 0 <= y < VERTICAL_SLOT_COUNT && !(slot_at(once, x, y) is Occupied);
    lemma_placed_from_fills(once, x, t, 0, k2);
}

} // verus!
