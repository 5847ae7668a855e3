//! The fill engine: gathers soft preferences for a region, places tiles and
//! turns them into hard constraints on their neighbors, then makes one pass
//! of corrections over neighbors outside the region that no longer fit.

use vstd::prelude::*;
use rand::rngs::StdRng;
use rand::{RngCore, SeedableRng};
use crate::position::{blank_cell, constrained, opposite_of, preferred, CellInfo, WangId};
use crate::select::{candidates, choose_weighted, collect_candidates, needs_draw, pick_weighted, weight_sum};
use crate::terrain::TerrainSet;

verus! {

/// The `index`-th 32-bit value of the generator seeded with `seed`.
pub uninterp spec fn seeded_draw(seed: u64, index: u64) -> u32;

/// Relies on rand's `StdRng` (ChaCha12, the same stream on every platform,
/// unlike `SmallRng`, whose algorithm follows the word size) built by
/// `SeedableRng::seed_from_u64`: the values that `RngCore::next_u32` hands
/// out depend on the seed and on how many came before.
#[verifier::external_body]
fn draw_at(seed: u64, index: u64) -> (r: u32)
    ensures
        r == seeded_draw(seed, index),
{
    let mut rng = StdRng::seed_from_u64(seed);
    for _ in 0..index {
        rng.next_u32();
    }
    rng.next_u32()
}

/// The draw counter after one more draw (it wraps after 2^64 draws).
pub open spec fn next_draw(drawn: u64) -> u64 {
    if drawn == u64::MAX {
        0
    } else {
        (drawn + 1) as u64
    }
}

/// The tile chosen for a cell, and the draw counter after choosing: a draw
/// is taken only where the least-penalty tiles leave a weighted choice.
pub open spec fn select_spec(ts: TerrainSet, cell: CellInfo, seed: u64, drawn: u64) -> (Option<u32>, u64) {
    let c = candidates(ts, cell);
    if needs_draw(c) {
        (choose_weighted(c, seeded_draw(seed, drawn)), next_draw(drawn))
    } else {
        (choose_weighted(c, 0), drawn)
    }
}

/// The index of the first record for cell `k` among `cells[from..]`.
pub open spec fn find_cell_from(cells: Seq<((i32, i32), CellInfo)>, k: (i32, i32), from: int) -> Option<int>
    decreases cells.len() - from,
{
    if from < 0 || from >= cells.len() {
        None
    } else if cells[from].0 == k {
        Some(from)
    } else {
        find_cell_from(cells, k, from + 1)
    }
}

/// The constraint record of cell `k`: its first entry, or a blank record.
pub open spec fn cell_of(cells: Seq<((i32, i32), CellInfo)>, k: (i32, i32)) -> CellInfo {
    match find_cell_from(cells, k, 0) {
        Some(i) => cells[i].1,
        None => blank_cell(),
    }
}

/// The records with cell `k`'s record replaced by `c`, or `c` added at the end.
pub open spec fn put_cell(cells: Seq<((i32, i32), CellInfo)>, k: (i32, i32), c: CellInfo) -> Seq<((i32, i32), CellInfo)> {
    match find_cell_from(cells, k, 0) {
        Some(i) => cells.update(i, (k, c)),
        None => cells.push((k, c)),
    }
}

/// What the first match says: in range, with the key, and no earlier one.
pub proof fn lemma_find_cell_from(cells: Seq<((i32, i32), CellInfo)>, k: (i32, i32), from: int)
    ensures
        match find_cell_from(cells, k, from) {
            Some(i) => from <= i < cells.len() && cells[i].0 == k && forall|j: int|
                from <= j < i ==> #[trigger] cells[j].0 != k,
            None => forall|j: int| 0 <= from <= j < cells.len() ==> #[trigger] cells[j].0 != k,
        },
    decreases cells.len() - from,
{
    if from >= 0 && from < cells.len() && cells[from].0 != k {
        lemma_find_cell_from(cells, k, from + 1);
    }
}

/// Whether `(x, y)` lies on a `width` by `height` grid.
pub open spec fn in_bounds(x: int, y: int, width: u32, height: u32) -> bool {
    0 <= x < width && 0 <= y < height
}

/// The row-major index of `(x, y)`.
pub open spec fn grid_index(x: int, y: int, width: u32) -> int {
    y * width + x
}

/// The tile at `(x, y)`; nothing off the grid.
pub open spec fn tile_at(grid: Seq<Option<u32>>, width: u32, height: u32, x: int, y: int) -> Option<u32> {
    if in_bounds(x, y, width, height) {
        grid[grid_index(x, y, width)]
    } else {
        None
    }
}

/// Horizontal step toward the neighbor at clock index `d` (y grows upward).
pub open spec fn dx(d: int) -> int {
    if d == 1 || d == 2 || d == 3 {
        1
    } else if d == 5 || d == 6 || d == 7 {
        -1
    } else {
        0
    }
}

/// Vertical step toward the neighbor at clock index `d` (y grows upward).
pub open spec fn dy(d: int) -> int {
    if d == 7 || d == 0 || d == 1 {
        1
    } else if d == 3 || d == 4 || d == 5 {
        -1
    } else {
        0
    }
}

/// Eight zero colors.
pub open spec fn no_colors() -> Seq<u8> {
    Seq::new(8, |i: int| 0u8)
}

/// The colors of the tile at `(x, y)`: zeros where the cell is off the grid,
/// empty, or holds a tile that the set does not know.
pub open spec fn colors_at_cell(ts: TerrainSet, grid: Seq<Option<u32>>, width: u32, height: u32, x: int, y: int) -> Seq<u8> {
    match tile_at(grid, width, height, x, y) {
        Some(t) => match ts.colors_of_tile(t) {
            Some(c) => c,
            None => no_colors(),
        },
        None => no_colors(),
    }
}

/// For each clock index `i` around `(x, y)`, the color that the neighbor
/// there shows at the opposite index, facing this cell.
pub open spec fn surround_colors(ts: TerrainSet, grid: Seq<Option<u32>>, width: u32, height: u32, x: int, y: int) -> Seq<u8> {
    Seq::new(8, |i: int| colors_at_cell(ts, grid, width, height, x + dx(i), y + dy(i))[opposite_of(i)])
}

/// `c` with the non-zero colors among `colors[0..n]` applied as preferences.
pub open spec fn soften_upto(c: CellInfo, colors: Seq<u8>, n: int) -> CellInfo
    decreases n,
{
    if n <= 0 {
        c
    } else if colors[n - 1] != 0 {
        preferred(soften_upto(c, colors, n - 1), n - 1, colors[n - 1])
    } else {
        soften_upto(c, colors, n - 1)
    }
}

/// Phase one for one cell: its own tile, then its neighbors, as preferences.
pub open spec fn build_step(
    ts: TerrainSet,
    grid: Seq<Option<u32>>,
    width: u32,
    height: u32,
    cells: Seq<((i32, i32), CellInfo)>,
    k: (i32, i32),
) -> Seq<((i32, i32), CellInfo)> {
    let own = soften_upto(cell_of(cells, k), colors_at_cell(ts, grid, width, height, k.0 as int, k.1 as int), 8);
    put_cell(cells, k, soften_upto(own, surround_colors(ts, grid, width, height, k.0 as int, k.1 as int), 8))
}

/// Phase one over the first `n` cells of the region.
pub open spec fn build_upto(
    ts: TerrainSet,
    grid: Seq<Option<u32>>,
    width: u32,
    height: u32,
    region: Seq<(i32, i32)>,
    cells: Seq<((i32, i32), CellInfo)>,
    n: int,
) -> Seq<((i32, i32), CellInfo)>
    decreases n,
{
    if n <= 0 {
        cells
    } else {
        build_step(ts, grid, width, height, build_upto(ts, grid, width, height, region, cells, n - 1), region[n - 1])
    }
}

/// Whether a tile with colors `have` breaks a requirement of `cell` (a
/// required 0 never counts as broken).
pub open spec fn violates(cell: CellInfo, have: Seq<u8>) -> bool {
    exists|i: int|
        0 <= i < 8 && #[trigger] cell.mask@[i] && cell.desired.colors@[i] != 0 && cell.desired.colors@[i] != have[i]
}

/// The state of a fill: constraint records, the grid, the cells queued
/// for correction, and the draw counter.
pub struct FillState {
    pub cells: Seq<((i32, i32), CellInfo)>,
    pub grid: Seq<Option<u32>>,
    pub corrections: Seq<(i32, i32)>,
    pub drawn: u64,
}

/// After placing a tile with colors `placed` at `k`: the neighbor at clock
/// index `d`, if it holds a tile, must show `placed[d]` at the opposite
/// index; a neighbor outside the region whose tile now breaks its
/// requirements is queued once for correction.
pub open spec fn propagate_step(
    ts: TerrainSet,
    width: u32,
    height: u32,
    region: Seq<(i32, i32)>,
    s: FillState,
    k: (i32, i32),
    placed: Seq<u8>,
    d: int,
) -> FillState {
    let nx = k.0 + dx(d);
    let ny = k.1 + dy(d);
    match tile_at(s.grid, width, height, nx, ny) {
        None => s,
        Some(t) => {
            let nk = (nx as i32, ny as i32);
            let cell = constrained(cell_of(s.cells, nk), opposite_of(d), placed[d]);
            let broken = match ts.colors_of_tile(t) {
                Some(c) => violates(cell, c),
                None => false,
            };
            let queue = !region.contains(nk) && broken && !s.corrections.contains(nk);
            FillState {
                cells: put_cell(s.cells, nk, cell),
                corrections: if queue {
                    s.corrections.push(nk)
                } else {
                    s.corrections
                },
                ..s
            }
        },
    }
}

/// Propagation toward the neighbors at clock indices `0..n`.
pub open spec fn propagate_upto(
    ts: TerrainSet,
    width: u32,
    height: u32,
    region: Seq<(i32, i32)>,
    s: FillState,
    k: (i32, i32),
    placed: Seq<u8>,
    n: int,
) -> FillState
    decreases n,
{
    if n <= 0 {
        s
    } else {
        propagate_step(ts, width, height, region, propagate_upto(ts, width, height, region, s, k, placed, n - 1), k, placed, n - 1)
    }
}

/// Phase two for one cell of the region: choose a tile, write it, and
/// propagate its colors to the neighbors. Off the grid, or with no
/// acceptable tile, the cell is left as it is.
pub open spec fn place_step(
    ts: TerrainSet,
    width: u32,
    height: u32,
    region: Seq<(i32, i32)>,
    seed: u64,
    s: FillState,
    k: (i32, i32),
) -> FillState {
    if !in_bounds(k.0 as int, k.1 as int, width, height) {
        s
    } else {
        let (choice, drawn) = select_spec(ts, cell_of(s.cells, k), seed, s.drawn);
        match choice {
            None => FillState { drawn, ..s },
            Some(t) => {
                let s1 = FillState {
                    grid: s.grid.update(grid_index(k.0 as int, k.1 as int, width), Some(t)),
                    drawn,
                    ..s
                };
                match ts.colors_of_tile(t) {
                    Some(placed) => propagate_upto(ts, width, height, region, s1, k, placed, 8),
                    None => s1,
                }
            },
        }
    }
}

/// Phase two over the first `n` cells of the region.
pub open spec fn place_upto(
    ts: TerrainSet,
    width: u32,
    height: u32,
    region: Seq<(i32, i32)>,
    seed: u64,
    s: FillState,
    n: int,
) -> FillState
    decreases n,
{
    if n <= 0 {
        s
    } else {
        place_step(ts, width, height, region, seed, place_upto(ts, width, height, region, seed, s, n - 1), region[n - 1])
    }
}

/// Phase three for one queued cell: if its tile still breaks its
/// requirements, choose again and, if a tile is found, overwrite it.
pub open spec fn correct_step(
    ts: TerrainSet,
    width: u32,
    height: u32,
    region: Seq<(i32, i32)>,
    seed: u64,
    s: FillState,
    k: (i32, i32),
) -> FillState {
    if region.contains(k) {
        s
    } else {
        match tile_at(s.grid, width, height, k.0 as int, k.1 as int) {
            None => s,
            Some(t) => match ts.colors_of_tile(t) {
                None => s,
                Some(c) => if violates(cell_of(s.cells, k), c) {
                    let (choice, drawn) = select_spec(ts, cell_of(s.cells, k), seed, s.drawn);
                    match choice {
                        Some(f) => FillState {
                            grid: s.grid.update(grid_index(k.0 as int, k.1 as int, width), Some(f)),
                            drawn,
                            ..s
                        },
                        None => FillState { drawn, ..s },
                    }
                } else {
                    s
                },
            },
        }
    }
}

/// Phase three over the first `n` queued cells.
pub open spec fn correct_upto(
    ts: TerrainSet,
    width: u32,
    height: u32,
    region: Seq<(i32, i32)>,
    seed: u64,
    queue: Seq<(i32, i32)>,
    s: FillState,
    n: int,
) -> FillState
    decreases n,
{
    if n <= 0 {
        s
    } else {
        correct_step(ts, width, height, region, seed, correct_upto(ts, width, height, region, seed, queue, s, n - 1), queue[n - 1])
    }
}

/// The whole fill of a region: preferences, placement with propagation,
/// then one pass of corrections over the queue that placement built.
pub open spec fn apply_spec(
    ts: TerrainSet,
    width: u32,
    height: u32,
    region: Seq<(i32, i32)>,
    seed: u64,
    cells: Seq<((i32, i32), CellInfo)>,
    grid: Seq<Option<u32>>,
    drawn: u64,
) -> FillState {
    let built = build_upto(ts, grid, width, height, region, cells, region.len() as int);
    let placed = place_upto(
        ts,
        width,
        height,
        region,
        seed,
        FillState { cells: built, grid, corrections: Seq::empty(), drawn },
        region.len() as int,
    );
    correct_upto(ts, width, height, region, seed, placed.corrections, placed, placed.corrections.len() as int)
}

/// A cell on the grid has an index inside it.
pub proof fn lemma_grid_index(x: int, y: int, width: u32, height: u32)
    requires
        in_bounds(x, y, width, height),
    ensures
        0 <= grid_index(x, y, width) < width * height,
{
    assert(y * width + x < width * height) by (nonlinear_arith)
        requires
            0 <= x < width,
            0 <= y < height,
    ;
    assert(0 <= y * width) by (nonlinear_arith)
        requires
            0 <= y,
            0 <= width,
    ;
}

/// The tile at `(x, y)` of a `width` by `height` grid; nothing off the grid.
fn tile_at_exec(tiles: &Vec<Option<u32>>, width: u32, height: u32, x: i64, y: i64) -> (r: Option<u32>)
    requires
        tiles@.len() == width * height,
    ensures
        r == tile_at(tiles@, width, height, x as int, y as int),
{
    if x >= 0 && y >= 0 && x < width as i64 && y < height as i64 {
        proof {
            lemma_grid_index(x as int, y as int, width, height);
        }
        let n = tiles.len();
        tiles[index_of(x, y, width, height)]
    } else {
        None
    }
}

/// The row-major index of a cell on the grid.
fn index_of(x: i64, y: i64, width: u32, height: u32) -> (r: usize)
    requires
        in_bounds(x as int, y as int, width, height),
        width * height <= usize::MAX,
    ensures
        r as int == grid_index(x as int, y as int, width),
        r < width * height,
{
    proof {
        lemma_grid_index(x as int, y as int, width, height);
    }
    (y as usize) * (width as usize) + (x as usize)
}

/// The step toward the neighbor at clock index `d`.
fn neighbor_offset(d: usize) -> (r: (i64, i64))
    requires
        d < 8,
    ensures
        r.0 == dx(d as int),
        r.1 == dy(d as int),
{
    if d == 0 {
        (0, 1)
    } else if d == 1 {
        (1, 1)
    } else if d == 2 {
        (1, 0)
    } else if d == 3 {
        (1, -1)
    } else if d == 4 {
        (0, -1)
    } else if d == 5 {
        (-1, -1)
    } else if d == 6 {
        (-1, 0)
    } else {
        (-1, 1)
    }
}

/// Whether `k` is among `list`.
fn holds_coord(list: &[(i32, i32)], k: (i32, i32)) -> (r: bool)
    ensures
        r == list@.contains(k),
{
    let mut i: usize = 0;
    while i < list.len()
        invariant
            i <= list@.len(),
            forall|j: int| 0 <= j < i ==> list@[j] != k,
        decreases list@.len() - i,
    {
        if list[i].0 == k.0 && list[i].1 == k.1 {
            assert(list@[i as int] == k);
            return true;
        }
        i = i + 1;
    }
    false
}

/// `c` with the non-zero colors of `colors` applied as preferences.
fn soften(c: CellInfo, colors: &WangId) -> (r: CellInfo)
    ensures
        r == soften_upto(c, colors.colors@, 8),
{
    let mut cur = c;
    let mut i: usize = 0;
    while i < 8
        invariant
            i <= 8,
            cur == soften_upto(c, colors.colors@, i as int),
        decreases 8 - i,
    {
        if colors.colors[i] != 0 {
            cur.set_preference_at_index(i, colors.colors[i]);
        }
        i = i + 1;
    }
    cur
}

/// Whether a tile with colors `tile_wang` breaks a requirement of `cell`.
fn cell_violates_constraints(cell: &CellInfo, tile_wang: &WangId) -> (r: bool)
    ensures
        r == violates(*cell, tile_wang.colors@),
{
    let mut i: usize = 0;
    while i < 8
        invariant
            i <= 8,
            forall|j: int|
                0 <= j < i ==> !(#[trigger] cell.mask@[j] && cell.desired.colors@[j] != 0 && cell.desired.colors@[j]
                    != tile_wang.colors@[j]),
        decreases 8 - i,
    {
        if cell.mask[i] {
            let want = cell.desired.colors[i];
            let have = tile_wang.colors[i];
            if want != 0 && want != have {
                return true;
            }
        }
        i = i + 1;
    }
    false
}

proof fn lemma_weight_positive(c: Seq<(u32, u32)>, n: int)
    requires
        0 <= n <= c.len(),
    ensures
        (weight_sum(c, n) > 0) == (exists|j: int| 0 <= j < n && #[trigger] c[j].1 > 0),
        weight_sum(c, n) >= 0,
    decreases n,
{
    if n > 0 {
        lemma_weight_positive(c, n - 1);
        if c[n - 1].1 > 0 {
            assert(0 <= n - 1 < n && c[n - 1].1 > 0);
        }
        if exists|j: int| 0 <= j < n && #[trigger] c[j].1 > 0 {
            let j = choose|j: int| 0 <= j < n && #[trigger] c[j].1 > 0;
            if j < n - 1 {
                assert(0 <= j < n - 1 && c[j].1 > 0);
            }
        }
    }
}

/// Whether picking among `c` takes a draw.
fn takes_draw(c: &Vec<(u32, u32)>) -> (r: bool)
    ensures
        r == needs_draw(c@),
{
    proof {
        lemma_weight_positive(c@, c@.len() as int);
    }
    if c.len() < 2 {
        return false;
    }
    let mut i: usize = 0;
    while i < c.len()
        invariant
            i <= c@.len(),
            c@.len() >= 2,
            forall|j: int| 0 <= j < i ==> #[trigger] c@[j].1 == 0,
        decreases c@.len() - i,
    {
        if c[i].1 > 0 {
            proof {
                lemma_weight_positive(c@, c@.len() as int);
                assert(0 <= i < c@.len() && c@[i as int].1 > 0);
            }
            return true;
        }
        i = i + 1;
    }
    proof {
        lemma_weight_positive(c@, c@.len() as int);
    }
    false
}

/// Reading a record just written gives what was written; other cells keep theirs.
pub proof fn lemma_put_then_get(cells: Seq<((i32, i32), CellInfo)>, k: (i32, i32), c: CellInfo)
    ensures
        cell_of(put_cell(cells, k, c), k) == c,
        forall|j: (i32, i32)| j != k ==> #[trigger] cell_of(put_cell(cells, k, c), j) == cell_of(cells, j),
{
    let after = put_cell(cells, k, c);
    lemma_find_cell_from(cells, k, 0);
    lemma_find_cell_from(after, k, 0);
    match find_cell_from(cells, k, 0) {
        Some(i) => {
            assert(after[i].0 == k);
            if find_cell_from(after, k, 0) != Some(i) {
                let f = find_cell_from(after, k, 0);
                assert(f is Some ==> after[f->0].0 == k);
            }
        },
        None => {
            assert(after[cells.len() as int].0 == k);
        },
    }
    assert forall|j: (i32, i32)| j != k implies #[trigger] cell_of(after, j) == cell_of(cells, j) by {
        lemma_find_cell_from(cells, j, 0);
        lemma_find_cell_from(after, j, 0);
        match find_cell_from(cells, j, 0) {
            Some(i) => {
                assert(after[i].0 == j);
                let f = find_cell_from(after, j, 0);
                if f != Some(i) {
                    assert(f is Some ==> after[f->0].0 == j);
                }
            },
            None => {
                let f = find_cell_from(after, j, 0);
                assert(f is Some ==> after[f->0].0 == j);
            },
        }
    }
}

/// Fills a region of a tile grid with tiles of a terrain set.
pub struct WangFiller<'a> {
    pub(crate) terrain_set: &'a TerrainSet,
    /// Constraint records of the cells seen so far, one per cell.
    pub(crate) cells: Vec<((i32, i32), CellInfo)>,
    /// Seed of the random source.
    pub(crate) seed: u64,
    /// How many values the random source has handed out.
    pub(crate) drawn: u64,
    /// Diagnostic trace toggle; it has no effect on the result.
    pub debug: bool,
}

impl<'a> WangFiller<'a> {
    /// The terrain set that tiles are chosen from.
    pub open(crate) spec fn terrain_set_spec(&self) -> TerrainSet {
        *self.terrain_set
    }

    /// The constraint records.
    pub open(crate) spec fn cells_spec(&self) -> Seq<((i32, i32), CellInfo)> {
        self.cells@
    }

    /// The seed of the random source.
    pub open(crate) spec fn seed_spec(&self) -> u64 {
        self.seed
    }

    /// Whether the diagnostic trace is on.
    pub open(crate) spec fn debug_spec(&self) -> bool {
        self.debug
    }

    /// How many values the random source has handed out.
    pub open(crate) spec fn drawn_spec(&self) -> u64 {
        self.drawn
    }

    /// A filler with no constraints whose random source has seed 0.
    pub fn new(terrain_set: &'a TerrainSet) -> (r: Self)
        ensures
            r.terrain_set_spec() == *terrain_set,
            r.cells_spec().len() == 0,
            r.seed_spec() == 0,
            r.drawn_spec() == 0,
            !r.debug_spec(),
    {
        Self::with_seed(terrain_set, 0)
    }

    /// A filler with no constraints whose random source has the given seed.
    pub fn with_seed(terrain_set: &'a TerrainSet, seed: u64) -> (r: Self)
        ensures
            r.terrain_set_spec() == *terrain_set,
            r.cells_spec().len() == 0,
            r.seed_spec() == seed,
            r.drawn_spec() == 0,
            !r.debug_spec(),
    {
        WangFiller { terrain_set, cells: Vec::new(), seed, drawn: 0, debug: false }
    }

    fn find_cell(&self, k: (i32, i32)) -> (r: Option<usize>)
        ensures
            match r {
                Some(i) => find_cell_from(self.cells@, k, 0) == Some(i as int),
                None => find_cell_from(self.cells@, k, 0) is None,
            },
    {
        let mut i: usize = 0;
        while i < self.cells.len()
            invariant
                i <= self.cells@.len(),
                find_cell_from(self.cells@, k, 0) == find_cell_from(self.cells@, k, i as int),
            decreases self.cells@.len() - i,
        {
            if self.cells[i].0.0 == k.0 && self.cells[i].0.1 == k.1 {
                return Some(i);
            }
            i = i + 1;
        }
        None
    }

    /// The constraint record of a cell, blank if it has none yet.
    fn cell_copy(&self, k: (i32, i32)) -> (r: CellInfo)
        ensures
            r == cell_of(self.cells@, k),
    {
        proof {
            lemma_find_cell_from(self.cells@, k, 0);
        }
        match self.find_cell(k) {
            Some(i) => self.cells[i].1,
            None => CellInfo::new(),
        }
    }

    /// The colors of the tile at `(x, y)`, zeros where there is none.
    fn cell_colors(&self, tiles: &Vec<Option<u32>>, width: u32, height: u32, x: i64, y: i64) -> (r: WangId)
        requires
            tiles@.len() == width * height,
        ensures
            r.colors@ == colors_at_cell(*self.terrain_set, tiles@, width, height, x as int, y as int),
    {
        let zero = WangId::wildcard();
        assert(zero.colors@ =~= no_colors());
        match tile_at_exec(tiles, width, height, x, y) {
            Some(t) => match self.terrain_set.tile_wang(t) {
                Some(w) => w,
                None => zero,
            },
            None => zero,
        }
    }

    /// For each clock index around `(x, y)`, the color that the neighbor
    /// there shows facing this cell.
    fn wang_id_from_surroundings(&self, tiles: &Vec<Option<u32>>, width: u32, height: u32, x: i64, y: i64) -> (r: WangId)
        requires
            tiles@.len() == width * height,
            i32::MIN <= x <= i32::MAX,
            i32::MIN <= y <= i32::MAX,
        ensures
            r.colors@ == surround_colors(*self.terrain_set, tiles@, width, height, x as int, y as int),
    {
        let mut result = WangId::wildcard();
        let mut i: usize = 0;
        while i < 8
            invariant
                i <= 8,
                tiles@.len() == width * height,
                i32::MIN <= x <= i32::MAX,
                i32::MIN <= y <= i32::MAX,
                forall|j: int| 0 <= j < i ==> result.colors@[j] == surround_colors(*self.terrain_set, tiles@, width, height, x as int, y as int)[j],
            decreases 8 - i,
        {
            let (ox, oy) = neighbor_offset(i);
            let neighbor = self.cell_colors(tiles, width, height, x + ox, y + oy);
            result.colors[i] = neighbor.colors[WangId::opposite_index(i)];
            i = i + 1;
        }
        assert(result.colors@ =~= surround_colors(*self.terrain_set, tiles@, width, height, x as int, y as int));
        result
    }

    /// Phase one for cell `(x, y)`.
    fn build_cell(&mut self, tiles: &Vec<Option<u32>>, width: u32, height: u32, x: i32, y: i32)
        requires
            tiles@.len() == width * height,
        ensures
            final(self).cells@ == build_step(*old(self).terrain_set, tiles@, width, height, old(self).cells@, (x, y)),
            final(self).terrain_set == old(self).terrain_set,
            final(self).seed == old(self).seed,
            final(self).debug == old(self).debug,
            final(self).drawn == old(self).drawn,
    {
        let own = self.cell_colors(tiles, width, height, x as i64, y as i64);
        let around = self.wang_id_from_surroundings(tiles, width, height, x as i64, y as i64);
        let cell = self.get_cell_mut(x, y);
        let merged = soften(soften(*cell, &own), &around);
        *cell = merged;
    }

    /// Picks among least-penalty candidates, taking a draw only where the
    /// choice is weighted.
    fn random_pick(&mut self, candidates: &Vec<(u32, u32)>) -> (r: Option<u32>)
        ensures
            (r, final(self).drawn) == (if needs_draw(candidates@) {
                (choose_weighted(candidates@, seeded_draw(old(self).seed, old(self).drawn)), next_draw(old(self).drawn))
            } else {
                (choose_weighted(candidates@, 0), old(self).drawn)
            }),
            final(self).terrain_set == old(self).terrain_set,
            final(self).cells == old(self).cells,
            final(self).seed == old(self).seed,
            final(self).debug == old(self).debug,
    {
        if takes_draw(candidates) {
            let draw = draw_at(self.seed, self.drawn);
            self.drawn = if self.drawn == u64::MAX {
                0
            } else {
                self.drawn + 1
            };
            pick_weighted(candidates, draw)
        } else {
            pick_weighted(candidates, 0)
        }
    }

    /// The tile to place in a cell with record `cell`, if any is acceptable.
    fn find_best_match(&mut self, cell: &CellInfo) -> (r: Option<u32>)
        ensures
            (r, final(self).drawn) == select_spec(*old(self).terrain_set, *cell, old(self).seed, old(self).drawn),
            final(self).terrain_set == old(self).terrain_set,
            final(self).cells == old(self).cells,
            final(self).seed == old(self).seed,
            final(self).debug == old(self).debug,
    {
        let cands = collect_candidates(self.terrain_set, cell);
        self.random_pick(&cands)
    }

    /// Requires of cell `(nx, ny)` the color that a tile placed at the
    /// neighbor shows at clock index `dir_idx`, at the opposite index.
    fn update_adjacent(&mut self, placed_wang: &WangId, nx: i32, ny: i32, dir_idx: usize)
        requires
            dir_idx < 8,
        ensures
            final(self).cells@ == put_cell(
                old(self).cells@,
                (nx, ny),
                constrained(cell_of(old(self).cells@, (nx, ny)), opposite_of(dir_idx as int), placed_wang.colors@[dir_idx as int]),
            ),
            final(self).terrain_set == old(self).terrain_set,
            final(self).seed == old(self).seed,
            final(self).debug == old(self).debug,
            final(self).drawn == old(self).drawn,
    {
        let opposite_idx = WangId::opposite_index(dir_idx);
        let cell = self.get_cell_mut(nx, ny);
        cell.set_constraint_at_index(opposite_idx, placed_wang.colors[dir_idx]);
    }

    /// Propagation from a tile with colors `placed` at `(x, y)` toward the
    /// neighbor at clock index `d`.
    fn propagate_to(
        &mut self,
        tiles: &Vec<Option<u32>>,
        width: u32,
        height: u32,
        region: &[(i32, i32)],
        corrections: &mut Vec<(i32, i32)>,
        placed: &WangId,
        x: i32,
        y: i32,
        d: usize,
    )
        requires
            tiles@.len() == width * height,
            width <= i32::MAX,
            height <= i32::MAX,
            d < 8,
        ensures
            (FillState { cells: final(self).cells@, grid: tiles@, corrections: final(corrections)@, drawn: final(self).drawn })
                == propagate_step(
                *old(self).terrain_set,
                width,
                height,
                region@,
                FillState { cells: old(self).cells@, grid: tiles@, corrections: old(corrections)@, drawn: old(self).drawn },
                (x, y),
                placed.colors@,
                d as int,
            ),
            final(self).terrain_set == old(self).terrain_set,
            final(self).seed == old(self).seed,
            final(self).debug == old(self).debug,
    {
        let (ox, oy) = neighbor_offset(d);
        let nx = x as i64 + ox;
        let ny = y as i64 + oy;
        match tile_at_exec(tiles, width, height, nx, ny) {
            None => {},
            Some(t) => {
                let nk = (nx as i32, ny as i32);
                self.update_adjacent(placed, nx as i32, ny as i32, d);
                let cell = self.cell_copy(nk);
                proof {
                    lemma_put_then_get(
                        old(self).cells@,
                        nk,
                        constrained(cell_of(old(self).cells@, nk), opposite_of(d as int), placed.colors@[d as int]),
                    );
                }
                let broken = match self.terrain_set.tile_wang(t) {
                    Some(w) => cell_violates_constraints(&cell, &w),
                    None => false,
                };
                if !holds_coord(region, nk) && broken && !holds_coord(corrections.as_slice(), nk) {
                    corrections.push(nk);
                }
            },
        }
    }

    /// Phase two for cell `(x, y)` of the region.
    fn place_cell(
        &mut self,
        tiles: &mut Vec<Option<u32>>,
        width: u32,
        height: u32,
        region: &[(i32, i32)],
        corrections: &mut Vec<(i32, i32)>,
        x: i32,
        y: i32,
    )
        requires
            old(tiles)@.len() == width * height,
            width <= i32::MAX,
            height <= i32::MAX,
        ensures
            (FillState { cells: final(self).cells@, grid: final(tiles)@, corrections: final(corrections)@, drawn: final(self).drawn })
                == place_step(
                *old(self).terrain_set,
                width,
                height,
                region@,
                old(self).seed,
                FillState { cells: old(self).cells@, grid: old(tiles)@, corrections: old(corrections)@, drawn: old(self).drawn },
                (x, y),
            ),
            final(tiles)@.len() == old(tiles)@.len(),
            final(self).terrain_set == old(self).terrain_set,
            final(self).seed == old(self).seed,
            final(self).debug == old(self).debug,
    {
        if x < 0 || y < 0 || x as i64 >= width as i64 || y as i64 >= height as i64 {
            return;
        }
        let cell = self.cell_copy((x, y));
        match self.find_best_match(&cell) {
            None => {},
            Some(chosen) => {
                let n = tiles.len();
                let idx = index_of(x as i64, y as i64, width, height);
                tiles.set(idx, Some(chosen));
                match self.terrain_set.tile_wang(chosen) {
                    None => {},
                    Some(placed) => {
                        let ghost ts = *self.terrain_set;
                        let ghost start = FillState {
                            cells: self.cells@,
                            grid: tiles@,
                            corrections: corrections@,
                            drawn: self.drawn,
                        };
                        let mut d: usize = 0;
                        while d < 8
                            invariant
                                d <= 8,
                                tiles@.len() == width * height,
                                width <= i32::MAX,
                                height <= i32::MAX,
                                ts == *self.terrain_set,
                                (FillState { cells: self.cells@, grid: tiles@, corrections: corrections@, drawn: self.drawn })
                                    == propagate_upto(ts, width, height, region@, start, (x, y), placed.colors@, d as int),
                                self.seed == old(self).seed,
                                self.debug == old(self).debug,
                                self.terrain_set == old(self).terrain_set,
                            decreases 8 - d,
                        {
                            self.propagate_to(tiles, width, height, region, corrections, &placed, x, y, d);
                            d = d + 1;
                        }
                    },
                }
            },
        }
    }

    /// Phase three for queued cell `(x, y)`.
    fn correct_cell(
        &mut self,
        tiles: &mut Vec<Option<u32>>,
        width: u32,
        height: u32,
        region: &[(i32, i32)],
        x: i32,
        y: i32,
    )
        requires
            old(tiles)@.len() == width * height,
        ensures
            (FillState { cells: final(self).cells@, grid: final(tiles)@, corrections: Seq::empty(), drawn: final(self).drawn })
                == correct_step(
                *old(self).terrain_set,
                width,
                height,
                region@,
                old(self).seed,
                FillState { cells: old(self).cells@, grid: old(tiles)@, corrections: Seq::empty(), drawn: old(self).drawn },
                (x, y),
            ),
            final(tiles)@.len() == old(tiles)@.len(),
            final(self).terrain_set == old(self).terrain_set,
            final(self).seed == old(self).seed,
            final(self).debug == old(self).debug,
    {
        if holds_coord(region, (x, y)) {
            return;
        }
        match tile_at_exec(tiles, width, height, x as i64, y as i64) {
            None => {},
            Some(t) => match self.terrain_set.tile_wang(t) {
                None => {},
                Some(current) => {
                    let cell = self.cell_copy((x, y));
                    if cell_violates_constraints(&cell, &current) {
                        match self.find_best_match(&cell) {
                            Some(fix) => {
                                let n = tiles.len();
                                let idx = index_of(x as i64, y as i64, width, height);
                                tiles.set(idx, Some(fix));
                            },
                            None => {},
                        }
                    }
                },
            },
        }
    }

    /// Fills `region` of a `width` by `height` grid (row-major, `None` for
    /// an empty cell), in three phases: the region's own tiles and their
    /// neighbors become soft preferences; each region cell in order gets the
    /// best tile, whose colors become hard constraints on its non-empty
    /// neighbors, and neighbors outside the region that no longer fit are
    /// queued; each queued cell that still does not fit is chosen once more.
    /// Cells off the grid are skipped; a cell with no acceptable tile keeps
    /// what it held.
    pub fn apply(&mut self, tiles: &mut Vec<Option<u32>>, width: u32, height: u32, region: &[(i32, i32)])
        requires
            old(self).terrain_set_spec().wf(),
            old(tiles)@.len() == width * height,
            width <= i32::MAX,
            height <= i32::MAX,
        ensures
            ({
                let r = apply_spec(
                    old(self).terrain_set_spec(),
                    width,
                    height,
                    region@,
                    old(self).seed_spec(),
                    old(self).cells_spec(),
                    old(tiles)@,
                    old(self).drawn_spec(),
                );
                &&& final(tiles)@ == r.grid
                &&& final(self).cells_spec() == r.cells
                &&& final(self).drawn_spec() == r.drawn
            }),
            final(tiles)@.len() == old(tiles)@.len(),
            final(self).terrain_set_spec() == old(self).terrain_set_spec(),
            final(self).seed_spec() == old(self).seed_spec(),
            final(self).debug_spec() == old(self).debug_spec(),
    {
        let ghost ts = *self.terrain_set;
        let mut i: usize = 0;
        while i < region.len()
            invariant
                i <= region@.len(),
                tiles@ == old(tiles)@,
                tiles@.len() == width * height,
                ts == *self.terrain_set,
                self.cells@ == build_upto(ts, tiles@, width, height, region@, old(self).cells@, i as int),
                self.terrain_set == old(self).terrain_set,
                self.seed == old(self).seed,
                self.drawn == old(self).drawn,
                self.debug == old(self).debug,
            decreases region@.len() - i,
        {
            self.build_cell(tiles, width, height, region[i].0, region[i].1);
            i = i + 1;
        }
        let ghost start = FillState {
            cells: self.cells@,
            grid: tiles@,
            corrections: Seq::empty(),
            drawn: self.drawn,
        };
        let mut corrections: Vec<(i32, i32)> = Vec::new();
        let mut i: usize = 0;
        while i < region.len()
            invariant
                i <= region@.len(),
                tiles@.len() == width * height,
                width <= i32::MAX,
                height <= i32::MAX,
                ts == *self.terrain_set,
                (FillState { cells: self.cells@, grid: tiles@, corrections: corrections@, drawn: self.drawn })
                    == place_upto(ts, width, height, region@, old(self).seed, start, i as int),
                self.terrain_set == old(self).terrain_set,
                self.seed == old(self).seed,
                self.debug == old(self).debug,
            decreases region@.len() - i,
        {
            self.place_cell(tiles, width, height, region, &mut corrections, region[i].0, region[i].1);
            i = i + 1;
        }
        let ghost placed = FillState {
            cells: self.cells@,
            grid: tiles@,
            corrections: corrections@,
            drawn: self.drawn,
        };
        let mut j: usize = 0;
        while j < corrections.len()
            invariant
                j <= corrections@.len(),
                corrections@ == placed.corrections,
                tiles@.len() == width * height,
                ts == *self.terrain_set,
                (FillState { cells: self.cells@, grid: tiles@, corrections: placed.corrections, drawn: self.drawn })
                    == correct_upto(ts, width, height, region@, old(self).seed, placed.corrections, placed, j as int),
                self.terrain_set == old(self).terrain_set,
                self.seed == old(self).seed,
                self.debug == old(self).debug,
            decreases corrections@.len() - j,
        {
            let (x, y) = corrections[j];
            let ghost before = FillState { cells: self.cells@, grid: tiles@, corrections: Seq::empty(), drawn: self.drawn };
            self.correct_cell(tiles, width, height, region, x, y);
            proof {
                let q = placed.corrections;
                let after = correct_step(ts, width, height, region@, old(self).seed, before, (x, y));
                assert(correct_step(ts, width, height, region@, old(self).seed, FillState { corrections: q, ..before }, (x, y))
                    == FillState { corrections: q, ..after });
            }
            j = j + 1;
        }
    }

    /// The constraint record of cell `(x, y)`, made blank first if it has none.
    pub fn get_cell_mut(&mut self, x: i32, y: i32) -> (r: &mut CellInfo)
        ensures
            *r == cell_of(old(self).cells_spec(), (x, y)),
            final(self).cells_spec() == put_cell(old(self).cells_spec(), (x, y), *final(r)),
            final(self).terrain_set_spec() == old(self).terrain_set_spec(),
            final(self).seed_spec() == old(self).seed_spec(),
            final(self).drawn_spec() == old(self).drawn_spec(),
            final(self).debug_spec() == old(self).debug_spec(),
    {
        proof {
            lemma_find_cell_from(self.cells@, (x, y), 0);
        }
        let i = match self.find_cell((x, y)) {
            Some(i) => i,
            None => {
                self.cells.push(((x, y), CellInfo::new()));
                self.cells.len() - 1
            },
        };
        &mut self.cells[i].1
    }
}

} // verus!
