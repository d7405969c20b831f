//! The orb maze: a 4x4 grid of numbers and operators. Walking from tile to
//! tile applies each operator tile to the number tile entered next; the goal
//! is to reach the vault corner holding a given total.

use vstd::prelude::*;

verus! {

/// Largest magnitude of a running total that a move accepts; every tile
/// number is at most 22, so one move keeps the total far inside `i64`.
pub const TOTAL_BOUND: i64 = 0x100_0000_0000;

#[derive(Clone, Copy, Debug, PartialEq, Eq, Structural)]
pub enum Tile {
    Num(i64),
    Sub,
    Plus,
    Multi,
}

#[derive(Clone, Copy, Debug, PartialEq, Eq, Structural)]
pub enum Move {
    North,
    South,
    East,
    West,
}

/// The grid, indexed by column `x` and row `y`, row 0 at the top.
pub open spec fn tile_at(x: int, y: int) -> Tile {
    if y == 0 {
        if x == 0 { Tile::Multi } else if x == 1 { Tile::Num(8) } else if x == 2 { Tile::Sub } else { Tile::Num(1) }
    } else if y == 1 {
        if x == 0 { Tile::Num(4) } else if x == 1 { Tile::Multi } else if x == 2 { Tile::Num(11) } else { Tile::Multi }
    } else if y == 2 {
        if x == 0 { Tile::Plus } else if x == 1 { Tile::Num(4) } else if x == 2 { Tile::Sub } else { Tile::Num(18) }
    } else {
        if x == 0 { Tile::Num(22) } else if x == 1 { Tile::Sub } else if x == 2 { Tile::Num(9) } else { Tile::Multi }
    }
}

/// The tile at column `x`, row `y`.
pub fn tile(x: usize, y: usize) -> (r: Tile)
    requires
        x < 4,
        y < 4,
    ensures
        r == tile_at(x as int, y as int),
{
    if y == 0 {
        if x == 0 { Tile::Multi } else if x == 1 { Tile::Num(8) } else if x == 2 { Tile::Sub } else { Tile::Num(1) }
    } else if y == 1 {
        if x == 0 { Tile::Num(4) } else if x == 1 { Tile::Multi } else if x == 2 { Tile::Num(11) } else { Tile::Multi }
    } else if y == 2 {
        if x == 0 { Tile::Plus } else if x == 1 { Tile::Num(4) } else if x == 2 { Tile::Sub } else { Tile::Num(18) }
    } else {
        if x == 0 { Tile::Num(22) } else if x == 1 { Tile::Sub } else if x == 2 { Tile::Num(9) } else { Tile::Multi }
    }
}

impl Tile {
    /// The number on a number tile.
    pub fn get_num(&self) -> (r: i64)
        requires
            self is Num,
        ensures
            r == self->Num_0,
    {
        match self {
            Tile::Num(val) => *val,
            _ => 0,
        }
    }
}

/// Whether a move from `pos` stays on the grid and goes through no wall.
pub open spec fn can_move(pos: (usize, usize), dir: Move) -> bool {
    match dir {
        Move::North => pos.1 != 0,
        Move::South => pos.1 != 3 && !(pos.0 == 0 && pos.1 == 2),
        Move::East => pos.0 != 3,
        Move::West => pos.0 != 0 && !(pos.0 == 1 && pos.1 == 3),
    }
}

pub open spec fn moved_pos(pos: (usize, usize), dir: Move) -> (usize, usize) {
    match dir {
        Move::North => (pos.0, (pos.1 - 1) as usize),
        Move::South => (pos.0, (pos.1 + 1) as usize),
        Move::East => ((pos.0 + 1) as usize, pos.1),
        Move::West => ((pos.0 - 1) as usize, pos.1),
    }
}

/// The running total after leaving `pos` for `next`: an operator tile left
/// behind applies itself to the number entered.
pub open spec fn moved_total(pos: (usize, usize), next: (usize, usize), total: int) -> int {
    let n = tile_at(next.0 as int, next.1 as int)->Num_0;
    match tile_at(pos.0 as int, pos.1 as int) {
        Tile::Num(_) => total,
        Tile::Sub => total - n,
        Tile::Plus => total + n,
        Tile::Multi => total * n,
    }
}

/// A position on the grid, the running total, and the moves taken so far.
pub struct State {
    pub pos: (usize, usize),
    pub total: i64,
    pub moves: Vec<Move>,
}

impl State {
    /// On the grid, with a total small enough for another move.
    pub open spec fn wf(&self) -> bool {
        self.pos.0 < 4 && self.pos.1 < 4 && -TOTAL_BOUND <= self.total <= TOTAL_BOUND
    }

    /// The state `step(dir)` yields.
    pub open spec fn stepped(&self, dir: Move, r: State) -> bool {
        &&& r.pos == moved_pos(self.pos, dir)
        &&& r.total == moved_total(self.pos, r.pos, self.total as int)
        &&& r.moves@ == self.moves@.push(dir)
    }

    /// Standing on the vault corner with the required total.
    pub fn is_exit(&self) -> (r: bool)
        ensures
            r == (self.pos.0 == 3 && self.pos.1 == 0 && self.total == 30),
    {
        self.pos.0 == 3 && self.pos.1 == 0 && self.total == 30
    }

    /// Takes one move, applying the tile left behind to the running total.
    pub fn step(&self, dir: Move) -> (r: State)
        requires
            self.wf(),
            can_move(self.pos, dir),
        ensures
            self.stepped(dir, r),
    {
        let next_pos = match dir {
            Move::North => (self.pos.0, self.pos.1 - 1),
            Move::South => (self.pos.0, self.pos.1 + 1),
            Move::East => (self.pos.0 + 1, self.pos.1),
            Move::West => (self.pos.0 - 1, self.pos.1),
        };
        let next_tile = tile(next_pos.0, next_pos.1);
        let here = tile(self.pos.0, self.pos.1);
        let next_total = match here {
            Tile::Num(_) => self.total,
            Tile::Sub => self.total - next_tile.get_num(),
            Tile::Plus => self.total + next_tile.get_num(),
            Tile::Multi => {
                let n = next_tile.get_num();
                assert(-TOTAL_BOUND * 22 <= self.total * n <= TOTAL_BOUND * 22) by (nonlinear_arith)
                    requires
                        -TOTAL_BOUND <= self.total <= TOTAL_BOUND,
                        0 <= n <= 22,
                ;
                self.total * n
            },
        };
        let mut moves: Vec<Move> = Vec::new();
        let mut i: usize = 0;
        while i < self.moves.len()
            invariant
                i <= self.moves@.len(),
                moves@ == self.moves@.subrange(0, i as int),
            decreases self.moves@.len() - i,
        {
            moves.push(self.moves[i]);
            i = i + 1;
        }
        assert(moves@ =~= self.moves@);
        moves.push(dir);
        State { pos: next_pos, total: next_total, moves }
    }

    pub fn north(&self) -> (r: Option<State>)
        requires
            self.wf(),
        ensures
            r is None <==> !can_move(self.pos, Move::North),
            r matches Some(s) ==> self.stepped(Move::North, s),
    {
        if self.pos.1 == 0 {
            None
        } else {
            Some(self.step(Move::North))
        }
    }

    pub fn south(&self) -> (r: Option<State>)
        requires
            self.wf(),
        ensures
            r is None <==> !can_move(self.pos, Move::South),
            r matches Some(s) ==> self.stepped(Move::South, s),
    {
        if self.pos.1 == 3 || (self.pos.0 == 0 && self.pos.1 == 2) {
            None
        } else {
            Some(self.step(Move::South))
        }
    }

    pub fn east(&self) -> (r: Option<State>)
        requires
            self.wf(),
        ensures
            r is None <==> !can_move(self.pos, Move::East),
            r matches Some(s) ==> self.stepped(Move::East, s),
    {
        if self.pos.0 == 3 {
            None
        } else {
            Some(self.step(Move::East))
        }
    }

    pub fn west(&self) -> (r: Option<State>)
        requires
            self.wf(),
        ensures
            r is None <==> !can_move(self.pos, Move::West),
            r matches Some(s) ==> self.stepped(Move::West, s),
    {
        if self.pos.0 == 0 || (self.pos.0 == 1 && self.pos.1 == 3) {
            None
        } else {
            Some(self.step(Move::West))
        }
    }

    /// `built` holds the states of the first `k` candidate moves that are allowed.
    pub open spec fn prefix_built(&self, built: Seq<State>, k: nat) -> bool {
        &&& built.len() == allowed_upto(self.pos, k).len()
        &&& forall|j: int| 0 <= j < built.len() ==> self.stepped(allowed_upto(self.pos, k)[j], #[trigger] built[j])
    }

    /// Every state one move away, in the order north, south, east, west;
    /// none from the vault corner, where the walk ends.
    pub fn next(&self) -> (r: Vec<State>)
        requires
            self.wf(),
        ensures
            self.pos.0 == 3 && self.pos.1 == 0 ==> r@.len() == 0,
            !(self.pos.0 == 3 && self.pos.1 == 0) ==> r@.len() == allowed_moves(self.pos).len()
                && forall|k: int| 0 <= k < r@.len() ==> self.stepped(allowed_moves(self.pos)[k], #[trigger] r@[k]),
    {
        let mut next: Vec<State> = Vec::new();
        if self.pos.0 == 3 && self.pos.1 == 0 {
            return next;
        }
        proof {
            reveal_with_fuel(allowed_upto, 5);
        }
        if let Some(n) = self.north() {
            next.push(n);
        }
        assert(self.prefix_built(next@, 1));
        if let Some(s) = self.south() {
            next.push(s);
        }
        assert(self.prefix_built(next@, 2));
        if let Some(e) = self.east() {
            next.push(e);
        }
        assert(self.prefix_built(next@, 3));
        if let Some(w) = self.west() {
            next.push(w);
        }
        assert(self.prefix_built(next@, 4));
        next
    }
}

pub open spec fn move_order(k: int) -> Move {
    if k == 0 { Move::North } else if k == 1 { Move::South } else if k == 2 { Move::East } else { Move::West }
}

/// The moves among the first `k` of north, south, east, west that `pos` allows.
pub open spec fn allowed_upto(pos: (usize, usize), k: nat) -> Seq<Move>
    decreases k,
{
    if k == 0 {
        Seq::empty()
    } else {
        let before = allowed_upto(pos, (k - 1) as nat);
        if can_move(pos, move_order(k - 1)) { before.push(move_order(k - 1)) } else { before }
    }
}

/// The moves `pos` allows, in the order north, south, east, west.
pub open spec fn allowed_moves(pos: (usize, usize)) -> Seq<Move> {
    allowed_upto(pos, 4)
}

} // verus!
