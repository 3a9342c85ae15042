//! The board: grid generation, player placement, legal moves, move
//! application, and end-of-game reporting.

use rand::Rng;
use vstd::prelude::*;

use crate::counting::{count_ch, lemma_count_push, lemma_count_update, lemma_swap_remove_distinct};
use crate::text::{joined, lemma_joined_push, str_eq};
use crate::user::{Place, User};

verus! {

/// Largest allowed side of the grid.
pub const MAX_SIZE: u32 = 30;

/// The playing field: a `rows x columns` grid of cell markers, kept row-major
/// in `cells`, together with the two markers chosen for walls and boosts and
/// the counter of boosts not yet collected.
///
/// A cell holds `' '` when empty; anything else is a wall marker, a boost
/// marker, or a player's symbol.
pub struct Board {
    cells: Vec<char>,
    rows: u32,
    columns: u32,
    wall_char: char,
    boost_char: char,
    boost_count: u32,
}

impl Board {
    /// The grid, row-major: the cell at `(r, c)` is entry `r * columns + c`.
    pub closed spec fn grid(&self) -> Seq<char> {
        self.cells@
    }

    pub closed spec fn rows_spec(&self) -> u32 {
        self.rows
    }

    pub closed spec fn columns_spec(&self) -> u32 {
        self.columns
    }

    pub closed spec fn wall_char_spec(&self) -> char {
        self.wall_char
    }

    pub closed spec fn boost_char_spec(&self) -> char {
        self.boost_char
    }

    /// How many placed boosts have not been collected yet.
    pub closed spec fn boost_count_spec(&self) -> u32 {
        self.boost_count
    }

    /// The board's shape invariant: the grid has exactly `rows * columns`
    /// cells, both sides are positive and within the cap, and the wall and
    /// boost markers are distinguishable from an empty cell.
    pub open spec fn wf(&self) -> bool {
        &&& self.grid().len() == self.rows_spec() as int * self.columns_spec() as int
        &&& 1 <= self.rows_spec() <= MAX_SIZE
        &&& 1 <= self.columns_spec() <= MAX_SIZE
        &&& self.wall_char_spec() != ' '
        &&& self.boost_char_spec() != ' '
    }

    pub open spec fn in_bounds_spec(&self, r: int, c: int) -> bool {
        0 <= r < self.rows_spec() as int && 0 <= c < self.columns_spec() as int
    }

    /// Row-major position of the cell at `(r, c)`.
    pub open spec fn idx_of(&self, r: int, c: int) -> int {
        r * (self.columns_spec() as int) + c
    }

    pub open spec fn cell_spec(&self, r: int, c: int) -> char {
        self.grid()[self.idx_of(r, c)]
    }

    /// A cell a player may step onto: inside the grid and either empty or
    /// holding a boost marker.
    pub open spec fn cell_open(&self, r: int, c: int) -> bool {
        self.in_bounds_spec(r, c) && (self.cell_spec(r, c) == ' ' || self.cell_spec(r, c)
            == self.boost_char_spec())
    }
}

/// A row-major index stays inside the grid whenever its row and column do.
pub proof fn lemma_idx_bounds(r: int, c: int, rows: int, cols: int)
    requires
        0 <= r < rows,
        0 <= c < cols,
    ensures
        0 <= r * cols + c < rows * cols,
{
    assert(0 <= r * cols + c < rows * cols) by (nonlinear_arith)
        requires
            0 <= r < rows,
            0 <= c < cols,
    ;
}

/// Relies on rand's `Rng::gen_range`: returns a uniformly distributed value
/// of the range `0..bound`, and panics only when the range is empty, which
/// the precondition rules out.
#[verifier::external_body]
fn random_below(bound: usize) -> (r: usize)
    requires
        bound >= 1,
    ensures
        r < bound,
{
    rand::thread_rng().gen_range(0..bound)
}

impl Board {
    /// Builds the starting grid: `rows x columns` empty cells, then `boosts`
    /// boost markers and after them `walls` wall markers, each scattered onto
    /// a uniformly chosen still-empty cell.
    ///
    /// Fails when the requested objects would not leave a margin of at least
    /// 20 free cells, or when either side exceeds `MAX_SIZE`. On success the
    /// grid holds exactly the requested marker counts (merged when the two
    /// markers are the same character) and nothing besides markers and empty
    /// cells, and the remaining-boost counter starts at `boosts`.
    ///
    /// The two markers must differ from the empty-cell marker `' '`, or
    /// placing them could never make progress.
    pub fn new(rows: u32, columns: u32, walls: u32, boosts: u32, wall_char: char, boost_char: char)
        -> (r: Result<Board, String>)
        requires
            wall_char != ' ',
            boost_char != ' ',
        ensures
            r is Err <==> (walls as int + boosts as int + 20 >= rows as int * columns as int
                || rows > MAX_SIZE || columns > MAX_SIZE),
            r matches Ok(b) ==> {
                &&& b.wf()
                &&& b.rows_spec() == rows
                &&& b.columns_spec() == columns
                &&& b.wall_char_spec() == wall_char
                &&& b.boost_char_spec() == boost_char
                &&& b.boost_count_spec() == boosts
                &&& wall_char != boost_char ==> count_ch(b.grid(), wall_char) == walls as int
                    && count_ch(b.grid(), boost_char) == boosts as int
                &&& wall_char == boost_char ==> count_ch(b.grid(), boost_char) == walls as int
                    + boosts as int
                &&& forall|k: int|
                    0 <= k < b.grid().len() ==> (b.grid()[k] == ' ' || b.grid()[k] == wall_char
                        || b.grid()[k] == boost_char)
            },
    {
        let need: u64 = walls as u64 + boosts as u64 + 20;
        proof {
            assert((rows as int) * (columns as int) < 0x1_0000_0000_0000_0000)
                by (nonlinear_arith)
                requires
                    rows as int <= 0xffff_ffff,
                    columns as int <= 0xffff_ffff,
            ;
        }
        let have: u64 = rows as u64 * columns as u64;
        if need >= have {
            return Err(String::from_str(
                "Board isn't big enough to contain all of these objects.",
            ));
        }
        if rows > MAX_SIZE || columns > MAX_SIZE {
            return Err(String::from_str("Board is too big. Choose a lower size."));
        }

        proof {
            assert(rows as int * columns as int <= 900) by (nonlinear_arith)
                requires
                    rows <= 30,
                    columns <= 30,
            ;
            assert(rows as int >= 1 && columns as int >= 1) by (nonlinear_arith)
                requires
                    rows as int * columns as int >= 21,
                    rows as int >= 0,
                    columns as int >= 0,
            ;
        }
        let total: usize = (rows as usize) * (columns as usize);

        // An all-empty grid.
        let mut cells: Vec<char> = Vec::new();
        let mut i: usize = 0;
        while i < total
            invariant
                i <= total,
                cells@.len() == i as int,
                forall|k: int| 0 <= k < i ==> cells@[k] == ' ',
                count_ch(cells@, boost_char) == 0,
                count_ch(cells@, wall_char) == 0,
                boost_char != ' ',
                wall_char != ' ',
            decreases total - i,
        {
            proof {
                lemma_count_push(cells@, boost_char, ' ');
                lemma_count_push(cells@, wall_char, ' ');
            }
            cells.push(' ');
            i = i + 1;
        }

        // Every cell is free to begin with.
        let mut free: Vec<usize> = Vec::new();
        let mut i: usize = 0;
        while i < total
            invariant
                i <= total,
                free@.len() == i as int,
                forall|k: int| 0 <= k < i ==> free@[k] as int == k,
            decreases total - i,
        {
            free.push(i);
            i = i + 1;
        }
        proof {
            assert forall|k1: int, k2: int|
                0 <= k1 < free@.len() && 0 <= k2 < free@.len() && k1 != k2 implies free@[k1]
                != free@[k2] by {
                assert(free@[k1] as int == k1);
                assert(free@[k2] as int == k2);
            }
            assert(free@.no_duplicates());
        }

        // Boosts first: each onto a uniformly chosen free cell.
        let mut placed: u32 = 0;
        while placed < boosts
            invariant
                placed <= boosts,
                total as int == rows as int * columns as int,
                boosts as int + walls as int + 21 <= total as int,
                cells@.len() == total as int,
                free@.len() == total as int - placed as int,
                free@.no_duplicates(),
                forall|k: int|
                    0 <= k < free@.len() ==> (#[trigger] free@[k] as int) < total as int
                        && cells@[free@[k] as int] == ' ',
                count_ch(cells@, boost_char) == placed as int,
                count_ch(cells@, wall_char) == (if wall_char == boost_char {
                    placed as int
                } else {
                    0int
                }),
                forall|k: int| 0 <= k < total ==> (cells@[k] == ' ' || cells@[k] == boost_char),
                boost_char != ' ',
                wall_char != ' ',
            decreases boosts - placed,
        {
            let k = random_below(free.len());
            let idx = free[k];
            proof {
                lemma_count_update(cells@, boost_char, idx as int, boost_char);
                lemma_count_update(cells@, wall_char, idx as int, boost_char);
                lemma_swap_remove_distinct(free@, k as int);
            }
            cells[idx] = boost_char;
            free.swap_remove(k);
            placed = placed + 1;
        }

        // Walls next: they must dodge the boosts already placed, so they draw
        // from the same pool of still-free cells.
        let mut placed_walls: u32 = 0;
        while placed_walls < walls
            invariant
                placed_walls <= walls,
                total as int == rows as int * columns as int,
                boosts as int + walls as int + 21 <= total as int,
                cells@.len() == total as int,
                free@.len() == total as int - boosts as int - placed_walls as int,
                free@.no_duplicates(),
                forall|k: int|
                    0 <= k < free@.len() ==> (#[trigger] free@[k] as int) < total as int
                        && cells@[free@[k] as int] == ' ',
                count_ch(cells@, wall_char) == placed_walls as int + (if wall_char == boost_char {
                    boosts as int
                } else {
                    0int
                }),
                count_ch(cells@, boost_char) == boosts as int + (if wall_char == boost_char {
                    placed_walls as int
                } else {
                    0int
                }),
                forall|k: int|
                    0 <= k < total ==> (cells@[k] == ' ' || cells@[k] == boost_char || cells@[k]
                        == wall_char),
                boost_char != ' ',
                wall_char != ' ',
            decreases walls - placed_walls,
        {
            let k = random_below(free.len());
            let idx = free[k];
            proof {
                lemma_count_update(cells@, boost_char, idx as int, wall_char);
                lemma_count_update(cells@, wall_char, idx as int, wall_char);
                lemma_swap_remove_distinct(free@, k as int);
            }
            cells[idx] = wall_char;
            free.swap_remove(k);
            placed_walls = placed_walls + 1;
        }

        Ok(
            Board {
                cells,
                rows,
                columns,
                wall_char,
                boost_char,
                boost_count: boosts,
            },
        )
    }
}

/// The corner assigned to roster index `i`: top-left, top-right,
/// bottom-left, bottom-right in that order.
pub open spec fn corner_place(i: int, rows: int, cols: int) -> Place {
    if i == 0 {
        Place { row: 0, col: 0 }
    } else if i == 1 {
        Place { row: 0, col: (cols - 1) as usize }
    } else if i == 2 {
        Place { row: (rows - 1) as usize, col: 0 }
    } else {
        Place { row: (rows - 1) as usize, col: (cols - 1) as usize }
    }
}

/// The grid after each player's symbol has been written into its corner, in
/// roster order.
pub open spec fn grid_after_players(g: Seq<char>, users: Seq<User>, rows: int, cols: int) -> Seq<
    char,
>
    decreases users.len(),
{
    if users.len() == 0 {
        g
    } else {
        let p = corner_place(users.len() - 1, rows, cols);
        grid_after_players(g, users.drop_last(), rows, cols).update(
            p.row as int * cols + p.col as int,
            users.last().symbol_spec(),
        )
    }
}

impl Board {
    pub fn rows(&self) -> (r: u32)
        ensures
            r == self.rows_spec(),
    {
        self.rows
    }

    pub fn columns(&self) -> (r: u32)
        ensures
            r == self.columns_spec(),
    {
        self.columns
    }

    pub fn wall_marker(&self) -> (r: char)
        ensures
            r == self.wall_char_spec(),
    {
        self.wall_char
    }

    pub fn boost_marker(&self) -> (r: char)
        ensures
            r == self.boost_char_spec(),
    {
        self.boost_char
    }

    /// How many placed boosts have not been collected yet.
    pub fn boosts_left(&self) -> (r: u32)
        ensures
            r == self.boost_count_spec(),
    {
        self.boost_count
    }

    /// The marker at `(row, col)`, for rendering the grid.
    pub fn cell_at(&self, row: usize, col: usize) -> (c: char)
        requires
            self.wf(),
            self.in_bounds_spec(row as int, col as int),
        ensures
            c == self.cell_spec(row as int, col as int),
    {
        proof {
            assert(self.rows_spec() as int * self.columns_spec() as int <= 900)
                by (nonlinear_arith)
                requires
                    self.rows_spec() <= 30,
                    self.columns_spec() <= 30,
            ;
            lemma_idx_bounds(
                row as int,
                col as int,
                self.rows_spec() as int,
                self.columns_spec() as int,
            );
        }
        self.cells[row * (self.columns as usize) + col]
    }

    /// Whether a player may step onto `(row, column)`: the cell exists and is
    /// empty or holds a boost marker.
    pub fn is_valid_cell(&self, row: i32, column: i32) -> (r: bool)
        requires
            self.wf(),
        ensures
            r == self.cell_open(row as int, column as int),
    {
        if row >= 0 && row < self.rows as i32 && column >= 0 && column < self.columns as i32 {
            let c = self.cell_at(row as usize, column as usize);
            c == ' ' || c == self.boost_char
        } else {
            false
        }
    }

    /// Writes each player's symbol into its assigned corner cell, in roster
    /// order, and records that corner as the player's position.
    ///
    /// The board has four corners, so the roster may hold at most four
    /// players.
    pub fn add_players(&mut self, users: &mut Vec<User>)
        requires
            old(self).wf(),
            old(users).len() <= 4,
        ensures
            final(self).wf(),
            final(self).rows_spec() == old(self).rows_spec(),
            final(self).columns_spec() == old(self).columns_spec(),
            final(self).wall_char_spec() == old(self).wall_char_spec(),
            final(self).boost_char_spec() == old(self).boost_char_spec(),
            final(self).boost_count_spec() == old(self).boost_count_spec(),
            final(self).grid() == grid_after_players(
                old(self).grid(),
                old(users)@,
                old(self).rows_spec() as int,
                old(self).columns_spec() as int,
            ),
            final(users)@.len() == old(users)@.len(),
            forall|i: int|
                0 <= i < old(users)@.len() ==> {
                    &&& (#[trigger] final(users)@[i]).place_spec() == corner_place(
                        i,
                        old(self).rows_spec() as int,
                        old(self).columns_spec() as int,
                    )
                    &&& final(users)@[i].name_spec() == old(users)@[i].name_spec()
                    &&& final(users)@[i].color_spec() == old(users)@[i].color_spec()
                    &&& final(users)@[i].symbol_spec() == old(users)@[i].symbol_spec()
                    &&& final(users)@[i].boosts_spec() == old(users)@[i].boosts_spec()
                    &&& final(users)@[i].has_lost_spec() == old(users)@[i].has_lost_spec()
                    &&& final(users)@[i].is_bot_spec() == old(users)@[i].is_bot_spec()
                },
    {
        let ghost orig_board = *self;
        let ghost orig_users = *users;
        let rows_n = self.rows;
        let cols_n = self.columns;
        let mut i: usize = 0;
        while i < users.len()
            invariant
                i <= users@.len(),
                users@.len() == orig_users@.len() <= 4,
                rows_n == orig_board.rows_spec(),
                cols_n == orig_board.columns_spec(),
                orig_board.wf(),
                self.rows_spec() == orig_board.rows_spec(),
                self.columns_spec() == orig_board.columns_spec(),
                self.wall_char_spec() == orig_board.wall_char_spec(),
                self.boost_char_spec() == orig_board.boost_char_spec(),
                self.boost_count_spec() == orig_board.boost_count_spec(),
                self.grid().len() == orig_board.grid().len(),
                self.grid() == grid_after_players(
                    orig_board.grid(),
                    orig_users@.take(i as int),
                    rows_n as int,
                    cols_n as int,
                ),
                forall|k: int| i <= k < users@.len() ==> users@[k] == orig_users@[k],
                forall|k: int|
                    0 <= k < i ==> {
                        &&& (#[trigger] users@[k]).place_spec() == corner_place(
                            k,
                            rows_n as int,
                            cols_n as int,
                        )
                        &&& users@[k].name_spec() == orig_users@[k].name_spec()
                        &&& users@[k].color_spec() == orig_users@[k].color_spec()
                        &&& users@[k].symbol_spec() == orig_users@[k].symbol_spec()
                        &&& users@[k].boosts_spec() == orig_users@[k].boosts_spec()
                        &&& users@[k].has_lost_spec() == orig_users@[k].has_lost_spec()
                        &&& users@[k].is_bot_spec() == orig_users@[k].is_bot_spec()
                    },
            decreases users@.len() - i,
        {
            let corner: Place = if i == 0 {
                Place { row: 0, col: 0 }
            } else if i == 1 {
                Place { row: 0, col: (cols_n - 1) as usize }
            } else if i == 2 {
                Place { row: (rows_n - 1) as usize, col: 0 }
            } else {
                Place { row: (rows_n - 1) as usize, col: (cols_n - 1) as usize }
            };
            proof {
                assert(corner == corner_place(i as int, rows_n as int, cols_n as int));
                assert(self.rows_spec() as int * self.columns_spec() as int <= 900)
                    by (nonlinear_arith)
                    requires
                        self.rows_spec() <= 30,
                        self.columns_spec() <= 30,
                ;
                lemma_idx_bounds(
                    corner.row as int,
                    corner.col as int,
                    rows_n as int,
                    cols_n as int,
                );
            }
            let sym = users[i].symbol();
            let idx: usize = corner.row * (cols_n as usize) + corner.col;
            self.cells[idx] = sym;
            users[i].set_place(corner);
            proof {
                let taken = orig_users@.take(i as int + 1);
                assert(taken.drop_last() =~= orig_users@.take(i as int));
                assert(taken.last() == orig_users@[i as int]);
            }
            i = i + 1;
        }
        proof {
            assert(orig_users@.take(users@.len() as int) =~= orig_users@);
        }
    }
}

/// The four orthogonal movement directions, in the fixed order the engine
/// reports them: up, down, left, right.
#[derive(PartialEq, Eq, Structural, Clone, Copy, Debug)]
pub enum Dir {
    Up,
    Down,
    Left,
    Right,
}

/// The name under which a direction is reported and accepted.
pub open spec fn dir_name(d: Dir) -> Seq<char> {
    match d {
        Dir::Up => "Up"@,
        Dir::Down => "Down"@,
        Dir::Left => "Left"@,
        Dir::Right => "Right"@,
    }
}

pub open spec fn dir_delta_row(d: Dir) -> int {
    match d {
        Dir::Up => -1,
        Dir::Down => 1,
        Dir::Left => 0,
        Dir::Right => 0,
    }
}

pub open spec fn dir_delta_col(d: Dir) -> int {
    match d {
        Dir::Up => 0,
        Dir::Down => 0,
        Dir::Left => -1,
        Dir::Right => 1,
    }
}

/// The names of the directions, in order.
pub open spec fn dir_names(ds: Seq<Dir>) -> Seq<Seq<char>> {
    Seq::new(ds.len(), |i: int| dir_name(ds[i]))
}

/// The row offset a direction name stands for.
pub open spec fn delta_row_of(s: Seq<char>) -> int {
    if s == "Up"@ {
        -1
    } else if s == "Down"@ {
        1
    } else {
        0
    }
}

/// The column offset a direction name stands for.
pub open spec fn delta_col_of(s: Seq<char>) -> int {
    if s == "Left"@ {
        -1
    } else if s == "Right"@ {
        1
    } else {
        0
    }
}

/// Whether `s` names one of the four directions.
pub open spec fn is_dir_name(s: Seq<char>) -> bool {
    s == "Up"@ || s == "Down"@ || s == "Left"@ || s == "Right"@
}

/// The boost count a mover ends with after stepping onto `dest`: one gained
/// on a boost marker, then one lost — clamped at zero — on a wall marker.
pub open spec fn boosts_after(b: u8, dest: char, boost_ch: char, wall_ch: char) -> u8 {
    let gained = if dest == boost_ch {
        (b + 1) as u8
    } else {
        b
    };
    if dest == wall_ch {
        if gained > 0 {
            (gained - 1) as u8
        } else {
            0u8
        }
    } else {
        gained
    }
}

/// The four direction names are pairwise distinct.
proof fn lemma_dir_names_distinct()
    ensures
        "Up"@ != "Down"@,
        "Up"@ != "Left"@,
        "Up"@ != "Right"@,
        "Down"@ != "Left"@,
        "Down"@ != "Right"@,
        "Left"@ != "Right"@,
{
    reveal_strlit("Up");
    reveal_strlit("Down");
    reveal_strlit("Left");
    reveal_strlit("Right");
    assert("Up"@.len() == 2);
    assert("Down"@.len() == 4);
    assert("Left"@.len() == 4);
    assert("Right"@.len() == 5);
    assert("Down"@[0] == 'D');
    assert("Left"@[0] == 'L');
}

impl Board {
    /// Whether the neighbor of `p` in direction `d` is a cell a player may
    /// step onto.
    pub open spec fn dir_open(&self, p: Place, d: Dir) -> bool {
        self.cell_open(p.row as int + dir_delta_row(d), p.col as int + dir_delta_col(d))
    }

    /// The legal directions from `p`, in the fixed order up, down, left,
    /// right.
    pub open spec fn legal_dirs(&self, p: Place) -> Seq<Dir> {
        let s0 = Seq::<Dir>::empty();
        let s1 = if self.dir_open(p, Dir::Up) {
            s0.push(Dir::Up)
        } else {
            s0
        };
        let s2 = if self.dir_open(p, Dir::Down) {
            s1.push(Dir::Down)
        } else {
            s1
        };
        let s3 = if self.dir_open(p, Dir::Left) {
            s2.push(Dir::Left)
        } else {
            s2
        };
        if self.dir_open(p, Dir::Right) {
            s3.push(Dir::Right)
        } else {
            s3
        }
    }

    /// The legal moves from the player's cell, as direction names in the
    /// fixed order, together with their space-separated display string.
    ///
    /// A direction is legal exactly when the neighbor cell in that direction
    /// exists and is empty or holds a boost marker — not a wall, not another
    /// player's symbol. An empty result means the caller should eliminate
    /// the player; the engine itself only reports.
    pub fn get_directions(&self, user: &User) -> (r: (Vec<String>, String))
        requires
            self.wf(),
            self.in_bounds_spec(user.place_spec().row as int, user.place_spec().col as int),
        ensures
            r.0@.len() == self.legal_dirs(user.place_spec()).len(),
            forall|i: int|
                0 <= i < r.0@.len() ==> (#[trigger] r.0@[i])@ == dir_name(
                    self.legal_dirs(user.place_spec())[i],
                ),
            r.1@ == joined(dir_names(self.legal_dirs(user.place_spec())), " "@),
    {
        let place = user.place();
        let mut directions: Vec<String> = Vec::new();
        let mut display = String::new();
        let ghost mut seen: Seq<Dir> = Seq::<Dir>::empty();
        proof {
            assert(dir_names(seen) =~= Seq::<Seq<char>>::empty());
        }

        if self.is_valid_cell(place.row as i32 - 1, place.col as i32) {
            proof {
                lemma_joined_push(dir_names(seen), " "@, dir_name(Dir::Up));
                assert(dir_names(seen.push(Dir::Up)) =~= dir_names(seen).push(dir_name(Dir::Up)));
            }
            if directions.len() > 0 {
                display.append(" ");
            }
            display.append("Up");
            directions.push(String::from_str("Up"));
            proof {
                seen = seen.push(Dir::Up);
            }
        }

        if self.is_valid_cell(place.row as i32 + 1, place.col as i32) {
            proof {
                lemma_joined_push(dir_names(seen), " "@, dir_name(Dir::Down));
                assert(dir_names(seen.push(Dir::Down)) =~= dir_names(seen).push(
                    dir_name(Dir::Down),
                ));
            }
            if directions.len() > 0 {
                display.append(" ");
            }
            display.append("Down");
            directions.push(String::from_str("Down"));
            proof {
                seen = seen.push(Dir::Down);
            }
        }

        if self.is_valid_cell(place.row as i32, place.col as i32 - 1) {
            proof {
                lemma_joined_push(dir_names(seen), " "@, dir_name(Dir::Left));
                assert(dir_names(seen.push(Dir::Left)) =~= dir_names(seen).push(
                    dir_name(Dir::Left),
                ));
            }
            if directions.len() > 0 {
                display.append(" ");
            }
            display.append("Left");
            directions.push(String::from_str("Left"));
            proof {
                seen = seen.push(Dir::Left);
            }
        }

        if self.is_valid_cell(place.row as i32, place.col as i32 + 1) {
            proof {
                lemma_joined_push(dir_names(seen), " "@, dir_name(Dir::Right));
                assert(dir_names(seen.push(Dir::Right)) =~= dir_names(seen).push(
                    dir_name(Dir::Right),
                ));
            }
            if directions.len() > 0 {
                display.append(" ");
            }
            display.append("Right");
            directions.push(String::from_str("Right"));
            proof {
                seen = seen.push(Dir::Right);
            }
        }

        proof {
            assert(seen == self.legal_dirs(user.place_spec()));
        }
        (directions, display)
    }

    /// Applies a chosen move: steps the player one cell in the named
    /// direction, collects a boost or pays the wall penalty, and writes the
    /// player's symbol into the destination cell.
    ///
    /// The caller must have validated the direction against the legal moves
    /// far enough that the destination exists; a destination holding a boost
    /// marker consumes one remaining boost. The vacated cell keeps the
    /// player's old symbol: the player's recorded position, not the grid, is
    /// authoritative for where a player stands.
    pub fn move_user(&mut self, user: &mut User, direction: &str)
        requires
            old(self).wf(),
            old(self).in_bounds_spec(
                old(user).place_spec().row as int,
                old(user).place_spec().col as int,
            ),
            is_dir_name(direction@),
            old(self).in_bounds_spec(
                old(user).place_spec().row as int + delta_row_of(direction@),
                old(user).place_spec().col as int + delta_col_of(direction@),
            ),
            old(self).cell_spec(
                old(user).place_spec().row as int + delta_row_of(direction@),
                old(user).place_spec().col as int + delta_col_of(direction@),
            ) == old(self).boost_char_spec() ==> old(user).boosts_spec() < 255 && old(
                self,
            ).boost_count_spec() >= 1,
        ensures
            ({
                let nr = old(user).place_spec().row as int + delta_row_of(direction@);
                let nc = old(user).place_spec().col as int + delta_col_of(direction@);
                let dest = old(self).cell_spec(nr, nc);
                &&& final(self).wf()
                &&& final(self).grid() == old(self).grid().update(
                    old(self).idx_of(nr, nc),
                    old(user).symbol_spec(),
                )
                &&& final(self).rows_spec() == old(self).rows_spec()
                &&& final(self).columns_spec() == old(self).columns_spec()
                &&& final(self).wall_char_spec() == old(self).wall_char_spec()
                &&& final(self).boost_char_spec() == old(self).boost_char_spec()
                &&& final(self).boost_count_spec() == old(self).boost_count_spec() - (if dest
                    == old(self).boost_char_spec() {
                    1int
                } else {
                    0int
                })
                &&& final(user).place_spec() == (Place { row: nr as usize, col: nc as usize })
                &&& final(user).boosts_spec() == boosts_after(
                    old(user).boosts_spec(),
                    dest,
                    old(self).boost_char_spec(),
                    old(self).wall_char_spec(),
                )
                &&& final(user).name_spec() == old(user).name_spec()
                &&& final(user).color_spec() == old(user).color_spec()
                &&& final(user).symbol_spec() == old(user).symbol_spec()
                &&& final(user).has_lost_spec() == old(user).has_lost_spec()
                &&& final(user).is_bot_spec() == old(user).is_bot_spec()
            }),
    {
        proof {
            lemma_dir_names_distinct();
        }
        let place = user.place();
        let mut new_place = place;

        if str_eq(direction, "Up") {
            new_place.row = new_place.row - 1;
        } else if str_eq(direction, "Down") {
            new_place.row = new_place.row + 1;
        } else if str_eq(direction, "Left") {
            new_place.col = new_place.col - 1;
        } else if str_eq(direction, "Right") {
            new_place.col = new_place.col + 1;
        } else {
            proof {
                assert(false);
            }
        }

        proof {
            assert(new_place.row as int == old(user).place_spec().row as int + delta_row_of(
                direction@,
            ));
            assert(new_place.col as int == old(user).place_spec().col as int + delta_col_of(
                direction@,
            ));
            assert(self.rows_spec() as int * self.columns_spec() as int <= 900)
                by (nonlinear_arith)
                requires
                    self.rows_spec() <= 30,
                    self.columns_spec() <= 30,
            ;
            lemma_idx_bounds(
                new_place.row as int,
                new_place.col as int,
                self.rows_spec() as int,
                self.columns_spec() as int,
            );
        }
        let dest_idx: usize = new_place.row * (self.columns as usize) + new_place.col;
        let dest = self.cells[dest_idx];
        proof {
            assert(dest_idx as int == self.idx_of(new_place.row as int, new_place.col as int));
            assert(dest == old(self).cell_spec(
                old(user).place_spec().row as int + delta_row_of(direction@),
                old(user).place_spec().col as int + delta_col_of(direction@),
            ));
        }

        if dest == self.boost_char {
            self.boost_count = self.boost_count - 1;
            user.add_boost();
        }
        if dest == self.wall_char {
            user.remove_boost();
        }

        let sym = user.symbol();
        self.cells[dest_idx] = sym;
        user.set_place(new_place);
    }
}

/// How many players of the roster are eliminated.
pub open spec fn count_lost(users: Seq<User>) -> int
    decreases users.len(),
{
    if users.len() == 0 {
        0
    } else {
        count_lost(users.drop_last()) + if users.last().has_lost_spec() {
            1int
        } else {
            0int
        }
    }
}

/// How many players of the roster are still in the game.
pub open spec fn count_active(users: Seq<User>) -> int {
    users.len() - count_lost(users)
}

/// Whether a player is named in the remaining-players report: still in the
/// game and not the optionally excluded name.
pub open spec fn keeps(u: User, ex: Option<Seq<char>>) -> bool {
    !u.has_lost_spec() && ex != Some(u.name_spec())
}

/// The names of the reported players, in roster order.
pub open spec fn kept_names(users: Seq<User>, ex: Option<Seq<char>>) -> Seq<Seq<char>>
    decreases users.len(),
{
    if users.len() == 0 {
        Seq::<Seq<char>>::empty()
    } else {
        kept_names(users.drop_last(), ex) + (if keeps(users.last(), ex) {
            seq![users.last().name_spec()]
        } else {
            Seq::<Seq<char>>::empty()
        })
    }
}

/// The characters of an optionally given name.
pub open spec fn opt_name(o: Option<String>) -> Option<Seq<char>> {
    match o {
        Some(s) => Some(s@),
        None => None::<Seq<char>>,
    }
}

/// The color of the first player whose symbol is `c`, scanning the roster in
/// order.
pub open spec fn color_from_symbol(c: char, users: Seq<User>) -> Option<crate::user::Color>
    decreases users.len(),
{
    if users.len() == 0 {
        None::<crate::user::Color>
    } else if users[0].symbol_spec() == c {
        Some(users[0].color_spec())
    } else {
        color_from_symbol(c, users.skip(1))
    }
}

/// The symbol of the first player standing at `(row, col)`, or `(false, ' ')`
/// when nobody does.
pub open spec fn symbol_at_spec(users: Seq<User>, row: int, col: int) -> (bool, char)
    decreases users.len(),
{
    if users.len() == 0 {
        (false, ' ')
    } else if users[0].place_spec().row == row && users[0].place_spec().col == col {
        (true, users[0].symbol_spec())
    } else {
        symbol_at_spec(users.skip(1), row, col)
    }
}

impl Board {
    /// Whether the match is over: every player but one is eliminated.
    pub fn is_game_ended(&self, users: &Vec<User>) -> (r: bool)
        requires
            users@.len() >= 1,
        ensures
            r == (count_lost(users@) == users@.len() - 1),
    {
        let mut count: usize = 0;
        let mut i: usize = 0;
        while i < users.len()
            invariant
                i <= users@.len(),
                count <= i,
                count as int == count_lost(users@.take(i as int)),
            decreases users@.len() - i,
        {
            proof {
                let taken = users@.take(i as int + 1);
                assert(taken.drop_last() =~= users@.take(i as int));
                assert(taken.last() == users@[i as int]);
            }
            if users[i].has_lost() {
                count = count + 1;
            }
            i = i + 1;
        }
        proof {
            assert(users@.take(users@.len() as int) =~= users@);
        }
        count == users.len() - 1
    }

    /// The names of the players still in the game, in roster order, joined
    /// with a comma and a space, optionally leaving out one named player.
    /// With nobody to report the result is the empty string.
    pub fn remaining_players(&self, users: &Vec<User>, username: Option<String>) -> (r: String)
        ensures
            r@ == joined(kept_names(users@, opt_name(username)), ", "@),
    {
        let mut remaining = String::new();
        let mut first: bool = true;
        let mut i: usize = 0;
        while i < users.len()
            invariant
                i <= users@.len(),
                remaining@ == joined(kept_names(users@.take(i as int), opt_name(username)), ", "@),
                first == (kept_names(users@.take(i as int), opt_name(username)).len() == 0),
            decreases users@.len() - i,
        {
            let lost = users[i].has_lost();
            let name_i = users[i].username();
            let keep: bool = if lost {
                false
            } else {
                match &username {
                    Some(ex) => !str_eq(name_i.as_str(), ex.as_str()),
                    None => true,
                }
            };
            proof {
                let ex = opt_name(username);
                let taken = users@.take(i as int + 1);
                assert(taken.drop_last() =~= users@.take(i as int));
                assert(taken.last() == users@[i as int]);
                assert(keep == keeps(users@[i as int], ex));
                if keep {
                    assert(kept_names(users@.take(i as int), ex) + seq![users@[i as int].name_spec()]
                        =~= kept_names(users@.take(i as int), ex).push(
                        users@[i as int].name_spec(),
                    ));
                    lemma_joined_push(
                        kept_names(users@.take(i as int), ex),
                        ", "@,
                        users@[i as int].name_spec(),
                    );
                } else {
                    assert(kept_names(taken, ex) =~= kept_names(users@.take(i as int), ex));
                }
            }
            if keep {
                if !first {
                    remaining.append(", ");
                }
                remaining.append(name_i.as_str());
                first = false;
            }
            i = i + 1;
        }
        proof {
            assert(users@.take(users@.len() as int) =~= users@);
        }
        remaining
    }
}

/// The color of the first player whose symbol is `c`, for rendering marker
/// cells.
pub fn get_color_from_char(c: &char, users: &Vec<User>) -> (r: Option<crate::user::Color>)
    ensures
        r == color_from_symbol(*c, users@),
{
    let mut i: usize = 0;
    proof {
        assert(users@.skip(0) =~= users@);
    }
    while i < users.len()
        invariant
            i <= users@.len(),
            color_from_symbol(*c, users@) == color_from_symbol(*c, users@.skip(i as int)),
            forall|k: int| 0 <= k < i ==> users@[k].symbol_spec() != *c,
        decreases users@.len() - i,
    {
        proof {
            let rest = users@.skip(i as int);
            assert(rest[0] == users@[i as int]);
            assert(rest.skip(1) =~= users@.skip(i as int + 1));
        }
        if users[i].symbol() == *c {
            return Some(users[i].color());
        }
        i = i + 1;
    }
    proof {
        assert(users@.skip(users@.len() as int) =~= Seq::<User>::empty());
    }
    None
}

/// Whether some player stands at the given cell; if so, also that player's
/// symbol, else a space. The first matching roster entry wins.
pub fn symbol_at_place(users: &Vec<User>, row: usize, col: usize) -> (r: (bool, char))
    ensures
        r == symbol_at_spec(users@, row as int, col as int),
{
    let mut i: usize = 0;
    proof {
        assert(users@.skip(0) =~= users@);
    }
    while i < users.len()
        invariant
            i <= users@.len(),
            symbol_at_spec(users@, row as int, col as int) == symbol_at_spec(
                users@.skip(i as int),
                row as int,
                col as int,
            ),
        decreases users@.len() - i,
    {
        proof {
            let rest = users@.skip(i as int);
            assert(rest[0] == users@[i as int]);
            assert(rest.skip(1) =~= users@.skip(i as int + 1));
        }
        let p = users[i].place();
        if p.row == row && p.col == col {
            return (true, users[i].symbol());
        }
        i = i + 1;
    }
    proof {
        assert(users@.skip(users@.len() as int) =~= Seq::<User>::empty());
    }
    (false, ' ')
}

/// The eliminated players are never fewer than none nor more than the whole
/// roster.
pub proof fn lemma_count_lost_bounds(users: Seq<User>)
    ensures
        0 <= count_lost(users) <= users.len(),
    decreases users.len(),
{
    if users.len() > 0 {
        lemma_count_lost_bounds(users.drop_last());
    }
}

/// The match is ended exactly when one player is still in the game: with two
/// or more active players it is not ended, and the moment exactly one
/// remains it is, whatever the roster's size.
pub proof fn lemma_game_ended_counts(users: Seq<User>)
    requires
        users.len() >= 1,
    ensures
        count_active(users) == users.len() - count_lost(users),
        count_active(users) >= 2 ==> count_lost(users) != users.len() - 1,
        count_active(users) == 1 <==> count_lost(users) == users.len() - 1,
{
    lemma_count_lost_bounds(users);
}

/// A player at a corner whose in-grid neighbor cells hold no wall and no
/// other player has exactly the two in-bounds directions legal, in the fixed
/// up-before-down-before-left-before-right order.
pub proof fn lemma_corner_directions(b: Board, p: Place)
    requires
        b.wf(),
        b.rows_spec() >= 2,
        b.columns_spec() >= 2,
        p.row == 0 || p.row as int == b.rows_spec() as int - 1,
        p.col == 0 || p.col as int == b.columns_spec() as int - 1,
        forall|d: Dir|
            b.in_bounds_spec(
                p.row as int + dir_delta_row(d),
                p.col as int + dir_delta_col(d),
            ) ==> (b.cell_spec(p.row as int + dir_delta_row(d), p.col as int + dir_delta_col(d))
                == ' ' || b.cell_spec(
                p.row as int + dir_delta_row(d),
                p.col as int + dir_delta_col(d),
            ) == b.boost_char_spec()),
    ensures
        p.row == 0 && p.col == 0 ==> b.legal_dirs(p) == seq![Dir::Down, Dir::Right],
        p.row == 0 && p.col as int == b.columns_spec() as int - 1 ==> b.legal_dirs(p) == seq![
            Dir::Down,
            Dir::Left,
        ],
        p.row as int == b.rows_spec() as int - 1 && p.col == 0 ==> b.legal_dirs(p) == seq![
            Dir::Up,
            Dir::Right,
        ],
        p.row as int == b.rows_spec() as int - 1 && p.col as int == b.columns_spec() as int - 1
            ==> b.legal_dirs(p) == seq![Dir::Up, Dir::Left],
{
    assert(b.dir_open(p, Dir::Up) == (p.row as int > 0));
    assert(b.dir_open(p, Dir::Down) == ((p.row as int) < b.rows_spec() as int - 1));
    assert(b.dir_open(p, Dir::Left) == (p.col as int > 0));
    assert(b.dir_open(p, Dir::Right) == ((p.col as int) < b.columns_spec() as int - 1));
    if p.row == 0 && p.col == 0 {
        assert(Seq::<Dir>::empty().push(Dir::Down).push(Dir::Right) =~= seq![
            Dir::Down,
            Dir::Right,
        ]);
    }
    if p.row == 0 && p.col as int == b.columns_spec() as int - 1 {
        assert(Seq::<Dir>::empty().push(Dir::Down).push(Dir::Left) =~= seq![
            Dir::Down,
            Dir::Left,
        ]);
    }
    if p.row as int == b.rows_spec() as int - 1 && p.col == 0 {
        assert(Seq::<Dir>::empty().push(Dir::Up).push(Dir::Right) =~= seq![Dir::Up, Dir::Right]);
    }
    if p.row as int == b.rows_spec() as int - 1 && p.col as int == b.columns_spec() as int - 1 {
        assert(Seq::<Dir>::empty().push(Dir::Up).push(Dir::Left) =~= seq![Dir::Up, Dir::Left]);
    }
}

/// The remaining-players report grows through the roster in order: extending
/// the prefix by one player appends that player's name when the player is
/// still in the game and not the excluded name, and appends nothing
/// otherwise. The report therefore names only eligible players and keeps
/// roster order.
pub proof fn lemma_remaining_report_step(users: Seq<User>, ex: Option<Seq<char>>, i: int)
    requires
        0 <= i < users.len(),
    ensures
        kept_names(users.take(i + 1), ex) == kept_names(users.take(i), ex) + (if keeps(
            users[i],
            ex,
        ) {
            seq![users[i].name_spec()]
        } else {
            Seq::<Seq<char>>::empty()
        }),
{
    let taken = users.take(i + 1);
    assert(taken.drop_last() =~= users.take(i));
    assert(taken.last() == users[i]);
    if !keeps(users[i], ex) {
        assert(kept_names(users.take(i), ex) + Seq::<Seq<char>>::empty() =~= kept_names(
            users.take(i),
            ex,
        ));
    }
}

} // verus!
