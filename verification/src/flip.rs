//! 180-degree board rotation and the matching coordinate maps.
use vstd::prelude::*;
use crate::types::{Board, BoardCell, Move, Pos};

verus! {

broadcast use vstd::array::group_array_axioms;

pub open spec fn spec_flip_pos(pos: Pos) -> Pos {
    Pos { file: (8 - pos.file) as u8, rank: (9 - pos.rank) as u8 }
}

pub open spec fn spec_flip_move(mv: Move) -> Move {
    Move { from: spec_flip_pos(mv.from), to: spec_flip_pos(mv.to) }
}

/// Rotates a square by 180 degrees (file and rank both reversed).
pub fn flip_pos(pos: Pos) -> (p: Pos)
    requires
        pos.spec_in_bounds(),
    ensures
        p == spec_flip_pos(pos),
        p.spec_in_bounds(),
{
    Pos { file: 8 - pos.file, rank: 9 - pos.rank }
}

/// Rotates both squares of a move by 180 degrees.
pub fn flip_move(mv: Move) -> (m: Move)
    requires
        mv.from.spec_in_bounds(),
        mv.to.spec_in_bounds(),
    ensures
        m == spec_flip_move(mv),
{
    Move { from: flip_pos(mv.from), to: flip_pos(mv.to) }
}

/// `pos` rotated when `flipped`, unchanged otherwise.
pub fn map_pos_with_flip(pos: Pos, flipped: bool) -> (p: Pos)
    requires
        pos.spec_in_bounds(),
    ensures
        p == if flipped { spec_flip_pos(pos) } else { pos },
{
    if flipped {
        flip_pos(pos)
    } else {
        pos
    }
}

impl Board {

    /// Whether `self` is `other` rotated by 180 degrees: same side to move,
    /// every square holding what the opposite square of `other` holds.
    pub open spec fn is_rotation_of(self, other: Board) -> bool {
        &&& self.side_to_move == other.side_to_move
        &&& forall|r: int, c: int| 0 <= r < 10 && 0 <= c < 9 ==> #[trigger] self.at(r, c) == other.at(9 - r, 8 - c)
    }

    /// The board rotated by 180 degrees: same sides, same side to move, every
    /// piece moved to the opposite square.
    pub fn flipped(&self) -> (b: Self)
        ensures
            b.is_rotation_of(*self),
    {
        let mut grid: [[BoardCell; 9]; 10] = [[None;9];10];
        let mut row: usize = 0;
        while row < 10
            invariant
                row <= 10,
                forall|r: int, c: int| 0 <= r < 10 && 0 <= c < 9 ==>
                    grid@[r]@[c] == if 9 - r < row { self.at(9 - r, 8 - c) } else { None::<crate::types::Piece> },
            decreases 10 - row,
        {
            let mut col: usize = 0;
            while col < 9
                invariant
                    row < 10,
                    col <= 9,
                    forall|r: int, c: int| 0 <= r < 10 && 0 <= c < 9 ==>
                        grid@[r]@[c] == if 9 - r < row || (9 - r == row && 8 - c < col) {
                            self.at(9 - r, 8 - c)
                        } else {
                            None::<crate::types::Piece>
                        },
                decreases 9 - col,
            {
                let target_row = 9 - row;
                let target_col = 8 - col;
                let v = self.grid[row][col];
                let ghost g0 = grid;
                grid[target_row][target_col] = v;
                proof {
                    assert forall|r: int, c: int| 0 <= r < 10 && 0 <= c < 9 implies
                        grid@[r]@[c] == if 9 - r < row || (9 - r == row && 8 - c < col + 1) {
                            self.at(9 - r, 8 - c)
                        } else {
                            None::<crate::types::Piece>
                        } by {
                        if r != target_row as int {
                            assert(grid@[r] == g0@[r]);
                        }
                    }
                }
                col += 1;
            }
            row += 1;
        }
        Board { grid, side_to_move: self.side_to_move }
    }
}

/// Rotating a square twice gives the square back.
pub proof fn lemma_flip_pos_involution(pos: Pos)
    requires
        pos.spec_in_bounds(),
    ensures
        spec_flip_pos(spec_flip_pos(pos)) == pos,
        spec_flip_pos(pos).spec_in_bounds(),
{
}

/// Rotating a move twice gives the move back.
pub proof fn lemma_flip_move_involution(mv: Move)
    requires
        mv.from.spec_in_bounds(),
        mv.to.spec_in_bounds(),
    ensures
        spec_flip_move(spec_flip_move(mv)) == mv,
{
}

/// Rotating a board twice gives the board back.
pub proof fn lemma_flip_board_involution(b: Board, once: Board, twice: Board)
    requires
        once.is_rotation_of(b),
        twice.is_rotation_of(once),
    ensures
        twice == b,
{
    assert forall|r: int| 0 <= r < 10 implies twice.grid@[r] == b.grid@[r] by {
        assert forall|c: int| 0 <= c < 9 implies twice.grid@[r]@[c] == b.grid@[r]@[c] by {
            assert(twice.at(r, c) == once.at(9 - r, 8 - c));
            assert(once.at(9 - r, 8 - c) == b.at(r, c));
        }
        assert(twice.grid@[r]@ =~= b.grid@[r]@);
    }
    assert(twice.grid@ =~= b.grid@);
    assert(twice.grid == b.grid);
}

/// The square of a piece on a rotated board is the rotated square.
pub proof fn lemma_rotation_moves_pieces(b: Board, r: Board, p: Pos)
    requires
        r.is_rotation_of(b),
        p.spec_in_bounds(),
    ensures
        r.cell(spec_flip_pos(p)) == b.cell(p),
{
    assert(r.at(spec_flip_pos(p).row(), spec_flip_pos(p).col()) == b.at(9 - spec_flip_pos(p).row(), 8 - spec_flip_pos(p).col()));
}

} // verus!
