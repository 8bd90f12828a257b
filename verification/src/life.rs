//! Conway's Game of Life on a fixed 80 x 60 board, stored row-major.
use vstd::prelude::*;

verus! {

/// Number of columns of the board.
pub const COLS: usize = 80;

/// Number of rows of the board.
pub const ROWS: usize = 60;

/// Number of cells of the board.
pub open spec fn board_len() -> nat {
    (COLS * ROWS) as nat
}

/// Whether the cell at (`col`, `row`) of `cells` is alive; every position off the board is dead.
pub open spec fn alive_at(cells: Seq<bool>, col: int, row: int) -> bool {
    &&& 0 <= col < COLS as int
    &&& 0 <= row < ROWS as int
    &&& cells[row * COLS as int + col]
}

/// 1 for a live cell, 0 for a dead one.
pub open spec fn as_count(b: bool) -> int {
    if b { 1 } else { 0 }
}

/// Number of live cells among the eight neighbours of (`col`, `row`).
pub open spec fn live_neighbors(cells: Seq<bool>, col: int, row: int) -> int {
    as_count(alive_at(cells, col - 1, row - 1)) + as_count(alive_at(cells, col - 1, row))
        + as_count(alive_at(cells, col - 1, row + 1)) + as_count(alive_at(cells, col, row - 1))
        + as_count(alive_at(cells, col, row + 1)) + as_count(alive_at(cells, col + 1, row - 1))
        + as_count(alive_at(cells, col + 1, row)) + as_count(alive_at(cells, col + 1, row + 1))
}

/// The rules of the game: a live cell with two or three live neighbours survives,
/// a dead cell with exactly three live neighbours comes to life, every other cell is dead.
pub open spec fn next_state(alive: bool, neighbors: int) -> bool {
    (alive && (neighbors == 2 || neighbors == 3)) || (!alive && neighbors == 3)
}

/// The board one generation after `cells`.
pub open spec fn next_generation(cells: Seq<bool>) -> Seq<bool> {
    Seq::new(
        board_len(),
        |i: int|
            next_state(
                alive_at(cells, i % COLS as int, i / COLS as int),
                live_neighbors(cells, i % COLS as int, i / COLS as int),
            ),
    )
}

/// Number of `true` entries of `s`.
pub open spec fn count_true(s: Seq<bool>) -> nat
    decreases s.len(),
{
    if s.len() == 0 {
        0
    } else {
        count_true(s.drop_last()) + (if s.last() { 1nat } else { 0nat })
    }
}

/// One step of the xorshift generator (shifts 13, 7, 17) on 64-bit state.
pub open spec fn xorshift_spec(s: u64) -> u64 {
    let a = s ^ (s << 13u64);
    let b = a ^ (a >> 7u64);
    b ^ (b << 17u64)
}

/// The generator state after `n` steps from `seed`.
pub open spec fn xorshift_iter(seed: u64, n: nat) -> u64
    decreases n,
{
    if n == 0 {
        seed
    } else {
        xorshift_spec(xorshift_iter(seed, (n - 1) as nat))
    }
}

/// The board that a randomisation from `seed` produces: cell `i` lives when the state
/// after `i + 1` steps has its two lowest bits clear (about a quarter of the cells).
pub open spec fn random_board(seed: u64) -> Seq<bool> {
    Seq::new(board_len(), |i: int| xorshift_iter(seed, (i + 1) as nat) & 3u64 == 0u64)
}

/// One step of the xorshift generator that seeds the board and scatters particles.
pub fn xorshift64(seed: u64) -> (r: u64)
    ensures
        r == xorshift_spec(seed),
{
    let mut s = seed;
    s = s ^ (s << 13u64);
    s = s ^ (s >> 7u64);
    s = s ^ (s << 17u64);
    s
}

/// The board of the game.
pub struct Grid {
    cells: Vec<bool>,
}

impl View for Grid {
    type V = Seq<bool>;

    closed spec fn view(&self) -> Seq<bool> {
        self.cells@
    }
}

impl Grid {
    #[verifier::type_invariant]
    closed spec fn board_size(&self) -> bool {
        self.cells@.len() == board_len()
    }

    /// A board where every cell is dead.
    pub fn new() -> (g: Grid)
        ensures
            g@ == Seq::new(board_len(), |i: int| false),
    {
        let mut cells: Vec<bool> = Vec::new();
        let mut i: usize = 0;
        while i < COLS * ROWS
            invariant
                i <= COLS * ROWS,
                cells@ == Seq::new(i as nat, |j: int| false),
            decreases COLS * ROWS - i,
        {
            cells.push(false);
            i = i + 1;
        }
        Grid { cells }
    }

    /// The cell at (`col`, `row`); `false` off the board.
    pub fn get(&self, col: i32, row: i32) -> (b: bool)
        ensures
            b == alive_at(self@, col as int, row as int),
    {
        proof {
            use_type_invariant(self);
        }
        if col < 0 || row < 0 || col >= COLS as i32 || row >= ROWS as i32 {
            return false;
        }
        self.cells[row as usize * COLS + col as usize]
    }

    /// Writes the cell at index `row * COLS + col`.
    pub fn set(&mut self, col: usize, row: usize, val: bool)
        requires
            row * COLS + col < board_len(),
        ensures
            final(self)@ == old(self)@.update(row * COLS + col, val),
    {
        proof {
            use_type_invariant(&*self);
        }
        let idx = row * COLS + col;
        let mut cells = self.cells.clone();
        proof {
            assert(cells@ =~= self.cells@);
        }
        cells.set(idx, val);
        self.cells = cells;
    }

    /// Number of live neighbours of (`col`, `row`).
    pub fn count_neighbors(&self, col: i32, row: i32) -> (n: u8)
        requires
            i32::MIN < col < i32::MAX,
            i32::MIN < row < i32::MAX,
        ensures
            n == live_neighbors(self@, col as int, row as int),
    {
        let mut n: u8 = 0;
        if self.get(col - 1, row - 1) {
            n = n + 1;
        }
        if self.get(col - 1, row) {
            n = n + 1;
        }
        if self.get(col - 1, row + 1) {
            n = n + 1;
        }
        if self.get(col, row - 1) {
            n = n + 1;
        }
        if self.get(col, row + 1) {
            n = n + 1;
        }
        if self.get(col + 1, row - 1) {
            n = n + 1;
        }
        if self.get(col + 1, row) {
            n = n + 1;
        }
        if self.get(col + 1, row + 1) {
            n = n + 1;
        }
        n
    }

    /// The next generation of the board.
    pub fn step(&self) -> (g: Grid)
        ensures
            g@ == next_generation(self@),
    {
        let mut cells: Vec<bool> = Vec::new();
        let mut row: usize = 0;
        while row < ROWS
            invariant
                row <= ROWS,
                cells@.len() == row * COLS,
                forall|i: int|
                    0 <= i < cells@.len() ==> #[trigger] cells@[i] == next_generation(self@)[i],
            decreases ROWS - row,
        {
            let mut col: usize = 0;
            while col < COLS
                invariant
                    row < ROWS,
                    col <= COLS,
                    cells@.len() == row * COLS + col,
                    forall|i: int|
                        0 <= i < cells@.len() ==> #[trigger] cells@[i] == next_generation(
                            self@,
                        )[i],
                decreases COLS - col,
            {
                let neighbors = self.count_neighbors(col as i32, row as i32);
                let alive = self.get(col as i32, row as i32);
                let next = (alive && (neighbors == 2 || neighbors == 3)) || (!alive && neighbors
                    == 3);
                proof {
                    let i = row * COLS + col;
                    assert(i % COLS as int == col as int && i / COLS as int == row as int);
                }
                cells.push(next);
                col = col + 1;
            }
            row = row + 1;
        }
        proof {
            assert(cells@ =~= next_generation(self@));
        }
        Grid { cells }
    }

    /// Refills the board from the xorshift generator seeded with `seed`.
    pub fn randomize(&mut self, seed: u64)
        ensures
            final(self)@ == random_board(seed),
    {
        let mut cells: Vec<bool> = Vec::new();
        let mut s = seed;
        let mut i: usize = 0;
        while i < COLS * ROWS
            invariant
                i <= COLS * ROWS,
                cells@.len() == i,
                s == xorshift_iter(seed, i as nat),
                forall|j: int| 0 <= j < i ==> #[trigger] cells@[j] == random_board(seed)[j],
            decreases COLS * ROWS - i,
        {
            s = xorshift64(s);
            cells.push(s & 3u64 == 0u64);
            i = i + 1;
        }
        proof {
            assert(cells@ =~= random_board(seed));
        }
        self.cells = cells;
    }

    /// Number of live cells on the board.
    pub fn count_alive(&self) -> (n: usize)
        ensures
            n == count_true(self@),
    {
        let mut n: usize = 0;
        let mut i: usize = 0;
        while i < self.cells.len()
            invariant
                i <= self.cells@.len(),
                n == count_true(self.cells@.take(i as int)),
                n <= i,
            decreases self.cells@.len() - i,
        {
            proof {
                assert(self.cells@.take(i + 1).drop_last() =~= self.cells@.take(i as int));
            }
            if self.cells[i] {
                n = n + 1;
            }
            i = i + 1;
        }
        proof {
            assert(self.cells@.take(self.cells@.len() as int) =~= self.cells@);
        }
        n
    }
}

/// An empty board stays empty: no cell comes to life without three live neighbours.
pub proof fn lemma_empty_board_stays_empty()
    ensures
        next_generation(Seq::new(board_len(), |i: int| false)) == Seq::new(
            board_len(),
            |i: int| false,
        ),
{
    let empty = Seq::new(board_len(), |i: int| false);
    assert(next_generation(empty) =~= empty);
}

/// Reading a cell back after writing it gives the written value, and no other cell changes.
pub proof fn lemma_set_then_get(cells: Seq<bool>, col: int, row: int, val: bool, c: int, r: int)
    requires
        cells.len() == board_len(),
        0 <= col < COLS as int,
        0 <= row < ROWS as int,
    ensures
        alive_at(cells.update(row * COLS as int + col, val), col, row) == val,
        (c != col || r != row) ==> alive_at(cells.update(row * COLS as int + col, val), c, r)
            == alive_at(cells, c, r),
{
    if (c != col || r != row) && 0 <= c < COLS as int && 0 <= r < ROWS as int {
        assert(r * COLS as int + c != row * COLS as int + col);
    }
}

/// A live cell with fewer than two or more than three live neighbours dies, and a dead
/// cell without exactly three live neighbours stays dead.
pub proof fn lemma_death_rules(cells: Seq<bool>, col: int, row: int)
    requires
        cells.len() == board_len(),
        0 <= col < COLS as int,
        0 <= row < ROWS as int,
    ensures
        live_neighbors(cells, col, row) < 2 ==> !next_generation(cells)[row * COLS as int
            + col],
        live_neighbors(cells, col, row) > 3 ==> !next_generation(cells)[row * COLS as int
            + col],
        !alive_at(cells, col, row) && live_neighbors(cells, col, row) != 3
            ==> !next_generation(cells)[row * COLS as int + col],
{
    let i = row * COLS as int + col;
    assert(i % COLS as int == col && i / COLS as int == row);
}

} // verus!
