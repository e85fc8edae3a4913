//! Setting a game up.

use vstd::prelude::*;
use crate::dice::draw_below;
use crate::errors::GameError;
use crate::game::Game;
use crate::grid::{is_square, lemma_with_cell, Cell, Grid};
use crate::model::{distinct_ids, GameView};
use crate::position::Position;
use crate::team::Team;
use crate::unit::{default_attacks, views, Unit, UnitView, DEFAULT_HEALTH};

verus! {

/// Whether `terrain` names row `x`, column `y`.
pub open spec fn terrain_at(terrain: Seq<Position>, x: int, y: int) -> bool {
    exists|k: int| 0 <= k < terrain.len() && (#[trigger] terrain[k]).x == x && terrain[k].y == y
}

/// Whether one of `units` stands on row `x`, column `y`.
pub open spec fn unit_at(units: Seq<UnitView>, x: int, y: int) -> bool {
    exists|k: int|
        0 <= k < units.len() && (#[trigger] units[k]).position.x == x && units[k].position.y == y
}

/// Whether a board of side `n` can be held and all of `units` and `terrain` lie
/// on it.
pub open spec fn fits_board(n: nat, units: Seq<UnitView>, terrain: Seq<Position>) -> bool {
    &&& n * n <= usize::MAX
    &&& forall|i: int|
        0 <= i < units.len() ==> (#[trigger] units[i]).position.x < n && units[i].position.y < n
    &&& forall|k: int| 0 <= k < terrain.len() ==> (#[trigger] terrain[k]).x < n && terrain[k].y < n
}

/// Whether each of `units` has a cell to itself that `terrain` does not name.
pub open spec fn collision_free(units: Seq<UnitView>, terrain: Seq<Position>) -> bool {
    &&& forall|i: int, j: int|
        0 <= i < j < units.len() ==> (#[trigger] units[i]).position != (
        #[trigger] units[j]).position
    &&& forall|i: int|
        0 <= i < units.len() ==> !terrain_at(
            terrain,
            (#[trigger] units[i]).position.x as int,
            units[i].position.y as int,
        )
}

/// Tells whether no two of `units` share an id.
pub fn has_distinct_ids(units: &Vec<Unit>) -> (b: bool)
    ensures
        b == distinct_ids(views(units@)),
{
    let ghost roster = views(units@);
    let mut j: usize = 0;
    while j < units.len()
        invariant
            j <= units.len(),
            roster == views(units@),
            forall|a: int, b: int|
                0 <= a < b < j ==> (#[trigger] roster[a]).entity_id != (
                #[trigger] roster[b]).entity_id,
        decreases units.len() - j,
    {
        let id = units[j].entity_id();
        let mut i: usize = 0;
        while i < j
            invariant
                i <= j < units.len(),
                roster == views(units@),
                id == roster[j as int].entity_id,
                forall|a: int| 0 <= a < i ==> (#[trigger] roster[a]).entity_id != id,
            decreases j - i,
        {
            assert(roster[i as int] == units[i as int]@);
            if units[i].entity_id() == id {
                return false;
            }
            i += 1;
        }
        j += 1;
    }
    true
}

impl Game {
    /// Sets up a game on a board of `grid_size` rows and columns with the units
    /// `units`, each on the cell of its position, and terrain on the cells that
    /// `terrain` names. All other cells are empty.
    ///
    /// The setup is refused with `OutOfBounds` where the board is too large to be
    /// held or a position lies off it, and otherwise with `CellOccupied` where a
    /// unit would share its cell with another unit or with terrain.
    pub fn new(grid_size: usize, units: Vec<Unit>, terrain: Vec<Position>) -> (r: Result<
        Game,
        GameError,
    >)
        requires
            distinct_ids(views(units@)),
        ensures
            r is Ok <==> fits_board(grid_size as nat, views(units@), terrain@) && collision_free(
                views(units@),
                terrain@,
            ),
            r matches Err(e) ==> e == (if fits_board(grid_size as nat, views(units@), terrain@) {
                GameError::CellOccupied
            } else {
                GameError::OutOfBounds
            }),
            r matches Ok(g) ==> {
                &&& g.wf()
                &&& g@.size() == grid_size
                &&& g@.units == views(units@)
                &&& forall|x: int, y: int|
                    g@.on_board(x, y) ==> ((#[trigger] g@.grid[x][y]) == Cell::Terrain
                        <==> terrain_at(terrain@, x, y))
                &&& forall|x: int, y: int|
                    g@.on_board(x, y) ==> ((#[trigger] g@.grid[x][y]) == Cell::Empty
                        <==> !terrain_at(terrain@, x, y) && !unit_at(views(units@), x, y))
            },
    {
        let ghost roster = views(units@);
        let mut grid = match Grid::new(grid_size) {
            Some(grid) => grid,
            None => {
                return Err(GameError::OutOfBounds);
            },
        };
        let mut k: usize = 0;
        while k < terrain.len()
            invariant
                k <= terrain.len(),
                forall|j: int|
                    0 <= j < k ==> (#[trigger] terrain[j]).x < grid_size && terrain[j].y
                        < grid_size,
            decreases terrain.len() - k,
        {
            if terrain[k].x() >= grid_size || terrain[k].y() >= grid_size {
                return Err(GameError::OutOfBounds);
            }
            k += 1;
        }
        let mut i: usize = 0;
        while i < units.len()
            invariant
                i <= units.len(),
                roster == views(units@),
                forall|j: int|
                    0 <= j < i ==> (#[trigger] roster[j]).position.x < grid_size
                        && roster[j].position.y < grid_size,
            decreases units.len() - i,
        {
            let p = units[i].position();
            assert(roster[i as int] == units[i as int]@);
            if p.x() >= grid_size || p.y() >= grid_size {
                return Err(GameError::OutOfBounds);
            }
            i += 1;
        }
        proof {
            grid.lemma_view_is_square();
        }
        k = 0;
        while k < terrain.len()
            invariant
                k <= terrain.len(),
                fits_board(grid_size as nat, roster, terrain@),
                is_square(grid@, grid_size as nat),
                forall|x: int, y: int|
                    0 <= x < grid_size && 0 <= y < grid_size ==> (#[trigger] grid@[x][y]) == (
                    if terrain_at(terrain@.take(k as int), x, y) {
                        Cell::Terrain
                    } else {
                        Cell::Empty
                    }),
            decreases terrain.len() - k,
        {
            let p = terrain[k];
            let ghost before = grid@;
            grid.set(p.x(), p.y(), Cell::Terrain);
            proof {
                lemma_with_cell(before, grid_size as nat, p.x as int, p.y as int, Cell::Terrain);
                let more = terrain@.take(k + 1);
                assert(more[k as int] == p);
            }
            k += 1;
        }
        assert(terrain@.take(k as int) =~= terrain@);
        i = 0;
        while i < units.len()
            invariant
                i <= units.len(),
                roster == views(units@),
                distinct_ids(roster),
                fits_board(grid_size as nat, roster, terrain@),
                is_square(grid@, grid_size as nat),
                collision_free(roster.take(i as int), terrain@),
                forall|x: int, y: int|
                    0 <= x < grid_size && 0 <= y < grid_size ==> ((#[trigger] grid@[x][y])
                        == Cell::Terrain <==> terrain_at(terrain@, x, y)),
                forall|j: int|
                    0 <= j < i ==> grid@[(#[trigger] roster[j]).position.x as int][roster[j].position.y as int]
                        == Cell::Occupied(roster[j].entity_id),
                forall|x: int, y: int|
                    0 <= x < grid_size && 0 <= y < grid_size ==> (
                    #[trigger] grid@[x][y] matches Cell::Occupied(id) ==> exists|j: int|
                        0 <= j < i && (#[trigger] roster[j]).entity_id == id
                            && roster[j].position.x == x && roster[j].position.y == y),
            decreases units.len() - i,
        {
            let p = units[i].position();
            let id = units[i].entity_id();
            let ghost before = grid@;
            match grid.get(p.x(), p.y()) {
                Some(Cell::Empty) => {},
                _ => {
                    return Err(GameError::CellOccupied);
                },
            }
            grid.set(p.x(), p.y(), Cell::Occupied(id));
            proof {
                lemma_with_cell(before, grid_size as nat, p.x as int, p.y as int, Cell::Occupied(id));
                assert forall|x: int, y: int|
                    0 <= x < grid_size && 0 <= y < grid_size implies (
                #[trigger] grid@[x][y] matches Cell::Occupied(other) ==> exists|j: int|
                    0 <= j < i + 1 && (#[trigger] roster[j]).entity_id == other
                        && roster[j].position.x == x && roster[j].position.y == y) by {
                    if let Cell::Occupied(other) = grid@[x][y] {
                        if x == p.x && y == p.y {
                            assert(roster[i as int].entity_id == other);
                        }
                    }
                }
            }
            i += 1;
        }
        let game = Game::assemble(grid, units);
        Ok(game)
    }
}

/// How many units each team has in the standard setup.
pub const UNITS_PER_TEAM: usize = 3;

/// How many numbers a draw for a cell's terrain can give: zero up to nine.
pub const TERRAIN_FACES: u32 = 10;

/// A cell becomes terrain where its draw is a multiple of this number: two
/// draws out of ten.
pub const TERRAIN_EVERY: u32 = 5;

/// The name of the unit at place `k` of the standard roster.
pub open spec fn default_name(k: int) -> Seq<char> {
    if k == 0 {
        "Billy #1"@
    } else if k == 1 {
        "Billy #2"@
    } else if k == 2 {
        "Billy #3"@
    } else if k == 3 {
        "Billy but Bad #1"@
    } else if k == 4 {
        "Billy but Bad #2"@
    } else {
        "Billy but Bad #3"@
    }
}

/// The unit at place `k` of the standard roster on a board of side `n`. Its id is
/// its place. The first three fight for Bluefor and stand at the right end of
/// the highest row; the other three fight for Redfor and stand at the left end
/// of row zero.
pub open spec fn default_unit(n: int, k: int) -> UnitView {
    UnitView {
        name: default_name(k),
        entity_id: k as u64,
        team: if k < 3 {
            Team::Bluefor
        } else {
            Team::Redfor
        },
        health: DEFAULT_HEALTH,
        attacks: default_attacks(),
        position: if k < 3 {
            Position { x: (n - 1) as usize, y: (n - 3 + k) as usize }
        } else {
            Position { x: 0, y: (k - 3) as usize }
        },
        action_count: 0,
    }
}

/// The standard roster on a board of side `n`: six units.
pub open spec fn default_units(n: int) -> Seq<UnitView> {
    Seq::new(6, |k: int| default_unit(n, k))
}

/// Whether the draws `draws` make row `x`, column `y` of a board of side `n`
/// terrain. Only rows between the two home rows can be terrain; their cells
/// take the draws one after another, row by row, and a cell without a draw
/// stays empty.
pub open spec fn is_terrain_draw(n: int, draws: Seq<u32>, x: int, y: int) -> bool {
    &&& 0 < x < n - 1
    &&& 0 <= y < n
    &&& (x - 1) * n + y < draws.len()
    &&& draws[(x - 1) * n + y] % TERRAIN_EVERY == 0
}

/// What row `x`, column `y` holds in the standard setup on a board of side `n`
/// with the draws `draws`.
pub open spec fn default_cell(n: int, draws: Seq<u32>, x: int, y: int) -> Cell {
    if x == 0 && y < 3 {
        Cell::Occupied((3 + y) as u64)
    } else if x == n - 1 && y >= n - 3 {
        Cell::Occupied((y - (n - 3)) as u64)
    } else if is_terrain_draw(n, draws, x, y) {
        Cell::Terrain
    } else {
        Cell::Empty
    }
}

/// Whether `g` is the standard setup on a board of side `n` with the draws
/// `draws`.
pub open spec fn is_default_setup(g: GameView, n: nat, draws: Seq<u32>) -> bool {
    &&& g.size() == n
    &&& g.units == default_units(n as int)
    &&& forall|x: int, y: int|
        g.on_board(x, y) ==> (#[trigger] g.grid[x][y]) == default_cell(n as int, draws, x, y)
}

/// Makes the standard roster for a board of side `grid_size`.
fn default_roster(grid_size: usize) -> (units: Vec<Unit>)
    requires
        grid_size >= UNITS_PER_TEAM,
    ensures
        views(units@) == default_units(grid_size as int),
{
    let top = grid_size - 1;
    let left = grid_size - UNITS_PER_TEAM;
    let mut units: Vec<Unit> = Vec::new();
    units.push(
        Unit::new_default("Billy #1".to_owned(), 0, Team::Bluefor, Position::new(top, left)),
    );
    units.push(
        Unit::new_default("Billy #2".to_owned(), 1, Team::Bluefor, Position::new(top, left + 1)),
    );
    units.push(
        Unit::new_default("Billy #3".to_owned(), 2, Team::Bluefor, Position::new(top, left + 2)),
    );
    units.push(
        Unit::new_default("Billy but Bad #1".to_owned(), 3, Team::Redfor, Position::new(0, 0)),
    );
    units.push(
        Unit::new_default("Billy but Bad #2".to_owned(), 4, Team::Redfor, Position::new(0, 1)),
    );
    units.push(
        Unit::new_default("Billy but Bad #3".to_owned(), 5, Team::Redfor, Position::new(0, 2)),
    );
    units
}

/// Lists the cells that the draws `draws` make terrain on a board of side
/// `grid_size`.
fn terrain_from_draws(grid_size: usize, draws: &Vec<u32>) -> (terrain: Vec<Position>)
    requires
        grid_size >= UNITS_PER_TEAM,
        grid_size * grid_size <= usize::MAX,
    ensures
        forall|x: int, y: int|
            terrain_at(terrain@, x, y) <==> is_terrain_draw(grid_size as int, draws@, x, y),
{
    let ghost n = grid_size as int;
    let mut terrain: Vec<Position> = Vec::new();
    let mut x: usize = 1;
    let mut index: usize = 0;
    while x < grid_size - 1
        invariant
            n == grid_size,
            n >= 3,
            n * n <= usize::MAX,
            1 <= x <= n - 1,
            index == (x - 1) * n,
            forall|a: int, b: int|
                terrain_at(terrain@, a, b) <==> a < x && is_terrain_draw(n, draws@, a, b),
        decreases grid_size - x,
    {
        let mut y: usize = 0;
        while y < grid_size
            invariant
                n == grid_size,
                n >= 3,
                n * n <= usize::MAX,
                1 <= x < n - 1,
                0 <= y <= n,
                index == (x - 1) * n + y,
                forall|a: int, b: int|
                    terrain_at(terrain@, a, b) <==> (a < x || (a == x && b < y))
                        && is_terrain_draw(n, draws@, a, b),
            decreases grid_size - y,
        {
            assert((x - 1) * n + y < n * n) by (nonlinear_arith)
                requires
                    1 <= x < n - 1,
                    0 <= y < n,
            ;
            let ghost before = terrain@;
            if index < draws.len() && draws[index] % TERRAIN_EVERY == 0 {
                terrain.push(Position::new(x, y));
                proof {
                    let k = before.len() as int;
                    assert(terrain@[k].x == x && terrain@[k].y == y);
                    assert forall|a: int, b: int| terrain_at(before, a, b) implies terrain_at(
                        terrain@,
                        a,
                        b,
                    ) by {
                        let j = choose|j: int|
                            0 <= j < before.len() && (#[trigger] before[j]).x == a && before[j].y
                                == b;
                        assert(terrain@[j] == before[j]);
                    }
                }
            }
            proof {
                assert forall|a: int, b: int|
                    terrain_at(terrain@, a, b) <==> (a < x || (a == x && b < y + 1))
                        && is_terrain_draw(n, draws@, a, b) by {
                    assert(terrain_at(before, a, b) <==> (a < x || (a == x && b < y))
                        && is_terrain_draw(n, draws@, a, b));
                }
            }
            index += 1;
            y += 1;
        }
        assert(index == x * n) by (nonlinear_arith)
            requires
                index == (x - 1) * n + n,
        ;
        x += 1;
    }
    terrain
}

impl Game {
    /// Sets up the standard game on a board of `grid_size` rows and columns, with
    /// the draws `draws` deciding where terrain lies.
    ///
    /// Each team has three units with the standard health and attacks: Bluefor
    /// at the right end of the highest row, Redfor at the left end of row zero.
    /// The cells of the rows between take the draws one after another, row by
    /// row; a cell whose draw is a multiple of five is terrain.
    ///
    /// The setup is refused with `OutOfBounds` where the board has fewer than three
    /// rows or is too large to be held.
    pub fn from_draws(grid_size: usize, draws: &Vec<u32>) -> (r: Result<Game, GameError>)
        ensures
            r is Ok <==> grid_size >= UNITS_PER_TEAM && grid_size * grid_size <= usize::MAX,
            r matches Err(e) ==> e == GameError::OutOfBounds,
            r matches Ok(g) ==> g.wf() && is_default_setup(g@, grid_size as nat, draws@),
    {
        if grid_size < UNITS_PER_TEAM || grid_size.checked_mul(grid_size).is_none() {
            return Err(GameError::OutOfBounds);
        }
        let units = default_roster(grid_size);
        let terrain = terrain_from_draws(grid_size, draws);
        let ghost n = grid_size as int;
        let ghost roster = default_units(n);
        proof {
            assert(fits_board(grid_size as nat, roster, terrain@)) by {
                assert forall|k: int| 0 <= k < terrain@.len() implies (#[trigger] terrain@[k]).x < n
                    && terrain@[k].y < n by {
                    assert(terrain_at(terrain@, terrain@[k].x as int, terrain@[k].y as int));
                }
            }
        }
        match Game::new(grid_size, units, terrain) {
            Ok(game) => {
                proof {
                    let g = game@;
                    assert forall|x: int, y: int| g.on_board(x, y) implies (#[trigger] g.grid[x][y])
                        == default_cell(n, draws@, x, y) by {
                        if x == 0 && y < 3 {
                            assert(g.units[3 + y].position.x == x);
                        } else if x == n - 1 && y >= n - 3 {
                            assert(g.units[y - (n - 3)].position.x == x);
                        }
                    }
                }
                Ok(game)
            },
            Err(e) => Err(e),
        }
    }

    /// Sets up the standard game on a board of `grid_size` rows and columns, with
    /// terrain where chance puts it: each cell between the two home rows is
    /// terrain with two chances in ten.
    ///
    /// The setup is refused as `from_draws` refuses it, and then nothing is drawn.
    pub fn new_default(grid_size: usize) -> (r: Result<Game, GameError>)
        ensures
            r is Ok <==> grid_size >= UNITS_PER_TEAM && grid_size * grid_size <= usize::MAX,
            r matches Err(e) ==> e == GameError::OutOfBounds,
            r matches Ok(g) ==> g.wf() && exists|draws: Seq<u32>|
                {
                    &&& draws.len() == (grid_size - 2) * grid_size
                    &&& forall|k: int| 0 <= k < draws.len() ==> (#[trigger] draws[k]) < TERRAIN_FACES
                    &&& is_default_setup(g@, grid_size as nat, draws)
                },
    {
        if grid_size < UNITS_PER_TEAM || grid_size.checked_mul(grid_size).is_none() {
            return Err(GameError::OutOfBounds);
        }
        assert((grid_size - 2) * grid_size <= grid_size * grid_size) by (nonlinear_arith)
            requires
                grid_size >= 3,
        ;
        let count = (grid_size - 2) * grid_size;
        let mut draws: Vec<u32> = Vec::new();
        while draws.len() < count
            invariant
                draws.len() <= count,
                forall|k: int| 0 <= k < draws.len() ==> (#[trigger] draws[k]) < TERRAIN_FACES,
            decreases count - draws.len(),
        {
            draws.push(draw_below(TERRAIN_FACES));
        }
        Game::from_draws(grid_size, &draws)
    }
}

} // verus!
