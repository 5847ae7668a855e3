//! Paint targets: where a brush position lands (a corner or an edge), which
//! cells that touches, and painting or previewing a terrain there.

use vstd::prelude::*;
use crate::filler::{apply_spec, cell_of, grid_index, in_bounds, lemma_grid_index, put_cell, WangFiller};
use crate::position::{constrained, CellInfo, WangId};
use crate::terrain::TerrainSet;

verus! {

/// What the terrain brush paints.
#[derive(Debug, Clone, Copy, PartialEq, Eq, Structural, Hash)]
pub enum PaintTarget {
    /// The intersection of up to four cells.
    Corner { corner_x: u32, corner_y: u32 },
    /// The boundary between cell `(tile_x, edge_y - 1)` and the one above it.
    HorizontalEdge { tile_x: u32, edge_y: u32 },
    /// The boundary between cell `(edge_x - 1, tile_y)` and the one right of it.
    VerticalEdge { edge_x: u32, tile_y: u32 },
}

/// The cells that a target touches, each with the clock index that painting
/// requires there, before dropping those off the grid.
pub open spec fn target_cells(target: PaintTarget) -> Seq<(i64, i64, usize)> {
    match target {
        PaintTarget::Corner { corner_x, corner_y } => seq![
            ((corner_x - 1) as i64, (corner_y - 1) as i64, 1usize),
            (corner_x as i64, (corner_y - 1) as i64, 7usize),
            ((corner_x - 1) as i64, corner_y as i64, 3usize),
            (corner_x as i64, corner_y as i64, 5usize),
        ],
        PaintTarget::HorizontalEdge { tile_x, edge_y } => seq![
            (tile_x as i64, (edge_y - 1) as i64, 0usize),
            (tile_x as i64, edge_y as i64, 4usize),
        ],
        PaintTarget::VerticalEdge { edge_x, tile_y } => seq![
            ((edge_x - 1) as i64, tile_y as i64, 2usize),
            (edge_x as i64, tile_y as i64, 6usize),
        ],
    }
}

/// The first `n` entries of `list` that lie on the grid.
pub open spec fn on_grid_upto(list: Seq<(i64, i64, usize)>, width: u32, height: u32, n: int) -> Seq<(i64, i64, usize)>
    decreases n,
{
    if n <= 0 {
        Seq::empty()
    } else if in_bounds(list[n - 1].0 as int, list[n - 1].1 as int, width, height) {
        on_grid_upto(list, width, height, n - 1).push(list[n - 1])
    } else {
        on_grid_upto(list, width, height, n - 1)
    }
}

/// The cells that a target touches on the grid, with their clock indices.
pub open spec fn affected(target: PaintTarget, width: u32, height: u32) -> Seq<(i64, i64, usize)> {
    on_grid_upto(target_cells(target), width, height, target_cells(target).len() as int)
}

/// The coordinates of affected cells: the region that painting fills.
pub open spec fn region_of(cells: Seq<(i64, i64, usize)>) -> Seq<(i32, i32)> {
    cells.map_values(|e: (i64, i64, usize)| (e.0 as i32, e.1 as i32))
}

/// The records that painting starts from: `color` required at each
/// affected cell's clock index, and nothing else.
pub open spec fn seeded_cells(cells: Seq<(i64, i64, usize)>, color: u8, n: int) -> Seq<((i32, i32), CellInfo)>
    decreases n,
{
    if n <= 0 {
        Seq::empty()
    } else {
        let prev = seeded_cells(cells, color, n - 1);
        let k = (cells[n - 1].0 as i32, cells[n - 1].1 as i32);
        put_cell(prev, k, constrained(cell_of(prev, k), cells[n - 1].2 as int, color))
    }
}

/// The seed of a target's random source, distinct per kind of target.
pub open spec fn seed_of(target: PaintTarget) -> u64 {
    match target {
        PaintTarget::Corner { corner_x, corner_y } => ((corner_x as u64) << 32u64) | (corner_y as u64),
        PaintTarget::HorizontalEdge { tile_x, edge_y } => ((tile_x as u64) << 32u64) | (edge_y as u64)
            | 0x1000_0000_0000_0000u64,
        PaintTarget::VerticalEdge { edge_x, tile_y } => ((edge_x as u64) << 32u64) | (tile_y as u64)
            | 0x2000_0000_0000_0000u64,
    }
}

/// The grid after painting terrain `terrain_index` at a target.
pub open spec fn paint_spec(
    grid: Seq<Option<u32>>,
    width: u32,
    height: u32,
    target: PaintTarget,
    ts: TerrainSet,
    terrain_index: usize,
) -> Seq<Option<u32>> {
    let cells = affected(target, width, height);
    apply_spec(
        ts,
        width,
        height,
        region_of(cells),
        seed_of(target),
        seeded_cells(cells, (terrain_index + 1) as u8, cells.len() as int),
        grid,
        0,
    ).grid
}

/// The cells that a target touches, with their clock indices.
fn target_cells_exec(target: PaintTarget) -> (r: Vec<(i64, i64, usize)>)
    ensures
        r@ == target_cells(target),
{
    let r = match target {
        PaintTarget::Corner { corner_x, corner_y } => {
            let cx = corner_x as i64;
            let cy = corner_y as i64;
            vec![(cx - 1, cy - 1, 1usize), (cx, cy - 1, 7usize), (cx - 1, cy, 3usize), (cx, cy, 5usize)]
        },
        PaintTarget::HorizontalEdge { tile_x, edge_y } => {
            let tx = tile_x as i64;
            let ey = edge_y as i64;
            vec![(tx, ey - 1, 0usize), (tx, ey, 4usize)]
        },
        PaintTarget::VerticalEdge { edge_x, tile_y } => {
            let ex = edge_x as i64;
            let ty = tile_y as i64;
            vec![(ex - 1, ty, 2usize), (ex, ty, 6usize)]
        },
    };
    assert(r@ =~= target_cells(target));
    r
}

/// The cells that a target touches on the grid, with their clock indices.
fn affected_exec(target: PaintTarget, width: u32, height: u32) -> (r: Vec<(i64, i64, usize)>)
    ensures
        r@ == affected(target, width, height),
{
    let all = target_cells_exec(target);
    let mut r: Vec<(i64, i64, usize)> = Vec::new();
    let mut i: usize = 0;
    while i < all.len()
        invariant
            i <= all@.len(),
            all@ == target_cells(target),
            r@ == on_grid_upto(all@, width, height, i as int),
        decreases all@.len() - i,
    {
        let (x, y, p) = all[i];
        if x >= 0 && y >= 0 && x < width as i64 && y < height as i64 {
            r.push((x, y, p));
        }
        i = i + 1;
    }
    r
}

/// The seed of a target's random source.
fn seed_exec(target: PaintTarget) -> (r: u64)
    ensures
        r == seed_of(target),
{
    match target {
        PaintTarget::Corner { corner_x, corner_y } => ((corner_x as u64) << 32u64) | (corner_y as u64),
        PaintTarget::HorizontalEdge { tile_x, edge_y } => ((tile_x as u64) << 32u64) | (edge_y as u64)
            | 0x1000_0000_0000_0000u64,
        PaintTarget::VerticalEdge { edge_x, tile_y } => ((edge_x as u64) << 32u64) | (tile_y as u64)
            | 0x2000_0000_0000_0000u64,
    }
}

proof fn lemma_on_grid(list: Seq<(i64, i64, usize)>, width: u32, height: u32, n: int)
    requires
        0 <= n <= list.len(),
        forall|i: int| 0 <= i < list.len() ==> #[trigger] list[i].2 < 8,
    ensures
        forall|i: int|
            0 <= i < on_grid_upto(list, width, height, n).len() ==> in_bounds(
                #[trigger] on_grid_upto(list, width, height, n)[i].0 as int,
                on_grid_upto(list, width, height, n)[i].1 as int,
                width,
                height,
            ) && on_grid_upto(list, width, height, n)[i].2 < 8,
    decreases n,
{
    if n > 0 {
        lemma_on_grid(list, width, height, n - 1);
        let prev = on_grid_upto(list, width, height, n - 1);
        let cur = on_grid_upto(list, width, height, n);
        assert forall|i: int| 0 <= i < cur.len() implies in_bounds(
            #[trigger] cur[i].0 as int,
            cur[i].1 as int,
            width,
            height,
        ) && cur[i].2 < 8 by {
            if i < prev.len() {
                assert(cur[i] == prev[i]);
            }
        }
    }
}

/// Paints terrain `terrain_index` at `target`: `terrain_index + 1` becomes
/// a hard requirement at the painted corner or edge of each touched cell on
/// the grid, and those cells are filled, with the random source seeded from
/// the target. `debug` is a trace toggle with no effect on the result.
pub fn paint_terrain_at_target_with_debug(
    tiles: &mut Vec<Option<u32>>,
    width: u32,
    height: u32,
    target: PaintTarget,
    terrain_set: &TerrainSet,
    terrain_index: usize,
    debug: bool,
)
    requires
        terrain_set.wf(),
        old(tiles)@.len() == width * height,
        width <= i32::MAX,
        height <= i32::MAX,
        terrain_index < 255,
    ensures
        final(tiles)@.len() == old(tiles)@.len(),
        final(tiles)@ == paint_spec(old(tiles)@, width, height, target, *terrain_set, terrain_index),
{
    let color = (terrain_index + 1) as u8;
    let cells = affected_exec(target, width, height);
    let mut filler = WangFiller::with_seed(terrain_set, seed_exec(target));
    filler.debug = debug;
    let mut region: Vec<(i32, i32)> = Vec::new();
    proof {
        let all = target_cells(target);
        assert forall|i: int| 0 <= i < all.len() implies #[trigger] all[i].2 < 8 by {}
        lemma_on_grid(all, width, height, all.len() as int);
        assert forall|j: int| 0 <= j < cells@.len() implies in_bounds(
            #[trigger] cells@[j].0 as int,
            cells@[j].1 as int,
            width,
            height,
        ) && cells@[j].2 < 8 by {
            assert(cells@[j] == on_grid_upto(all, width, height, all.len() as int)[j]);
        }
    }
    let mut i: usize = 0;
    while i < cells.len()
        invariant
            i <= cells@.len(),
            cells@ == affected(target, width, height),
            forall|j: int|
                0 <= j < cells@.len() ==> in_bounds(#[trigger] cells@[j].0 as int, cells@[j].1 as int, width, height)
                    && cells@[j].2 < 8,
            width <= i32::MAX,
            height <= i32::MAX,
            filler.terrain_set_spec() == *terrain_set,
            filler.seed_spec() == seed_of(target),
            filler.drawn_spec() == 0,
            filler.cells_spec() == seeded_cells(cells@, color, i as int),
            region@ == region_of(cells@.subrange(0, i as int)),
        decreases cells@.len() - i,
    {
        let (x, y, p) = cells[i];
        let cell = filler.get_cell_mut(x as i32, y as i32);
        cell.set_constraint_at_index(p, color);
        region.push((x as i32, y as i32));
        assert(region_of(cells@.subrange(0, i + 1)) =~= region_of(cells@.subrange(0, i as int)).push(
            (x as i32, y as i32),
        ));
        i = i + 1;
    }
    assert(cells@.subrange(0, cells@.len() as int) =~= cells@);
    filler.apply(tiles, width, height, region.as_slice());
}

/// Paints terrain `terrain_index` at `target` (see
/// `paint_terrain_at_target_with_debug`).
pub fn paint_terrain_at_target(
    tiles: &mut Vec<Option<u32>>,
    width: u32,
    height: u32,
    target: PaintTarget,
    terrain_set: &TerrainSet,
    terrain_index: usize,
)
    requires
        terrain_set.wf(),
        old(tiles)@.len() == width * height,
        width <= i32::MAX,
        height <= i32::MAX,
        terrain_index < 255,
    ensures
        final(tiles)@.len() == old(tiles)@.len(),
        final(tiles)@ == paint_spec(old(tiles)@, width, height, target, *terrain_set, terrain_index),
{
    paint_terrain_at_target_with_debug(tiles, width, height, target, terrain_set, terrain_index, false);
}

/// Paints terrain `terrain_index` at the corner `(corner_x, corner_y)`:
/// the corner shared by cells `(corner_x - 1, corner_y - 1)` (its top
/// right), `(corner_x, corner_y - 1)` (top left), `(corner_x - 1,
/// corner_y)` (bottom right) and `(corner_x, corner_y)` (bottom left).
pub fn paint_terrain_with_debug(
    tiles: &mut Vec<Option<u32>>,
    width: u32,
    height: u32,
    corner_x: u32,
    corner_y: u32,
    terrain_set: &TerrainSet,
    terrain_index: usize,
    debug: bool,
)
    requires
        terrain_set.wf(),
        old(tiles)@.len() == width * height,
        width <= i32::MAX,
        height <= i32::MAX,
        terrain_index < 255,
    ensures
        final(tiles)@.len() == old(tiles)@.len(),
        final(tiles)@ == paint_spec(
            old(tiles)@,
            width,
            height,
            PaintTarget::Corner { corner_x, corner_y },
            *terrain_set,
            terrain_index,
        ),
{
    paint_terrain_at_target_with_debug(
        tiles,
        width,
        height,
        PaintTarget::Corner { corner_x, corner_y },
        terrain_set,
        terrain_index,
        debug,
    );
}

/// Paints terrain `terrain_index` at the corner `(corner_x, corner_y)`.
pub fn paint_terrain(
    tiles: &mut Vec<Option<u32>>,
    width: u32,
    height: u32,
    corner_x: u32,
    corner_y: u32,
    terrain_set: &TerrainSet,
    terrain_index: usize,
)
    requires
        terrain_set.wf(),
        old(tiles)@.len() == width * height,
        width <= i32::MAX,
        height <= i32::MAX,
        terrain_index < 255,
    ensures
        final(tiles)@.len() == old(tiles)@.len(),
        final(tiles)@ == paint_spec(
            old(tiles)@,
            width,
            height,
            PaintTarget::Corner { corner_x, corner_y },
            *terrain_set,
            terrain_index,
        ),
{
    paint_terrain_with_debug(tiles, width, height, corner_x, corner_y, terrain_set, terrain_index, false);
}

/// Paints terrain `terrain_index` on the horizontal edge between cell
/// `(tile_x, edge_y - 1)` (its top) and `(tile_x, edge_y)` (its bottom).
pub fn paint_terrain_horizontal_edge(
    tiles: &mut Vec<Option<u32>>,
    width: u32,
    height: u32,
    tile_x: u32,
    edge_y: u32,
    terrain_set: &TerrainSet,
    terrain_index: usize,
)
    requires
        terrain_set.wf(),
        old(tiles)@.len() == width * height,
        width <= i32::MAX,
        height <= i32::MAX,
        terrain_index < 255,
    ensures
        final(tiles)@.len() == old(tiles)@.len(),
        final(tiles)@ == paint_spec(
            old(tiles)@,
            width,
            height,
            PaintTarget::HorizontalEdge { tile_x, edge_y },
            *terrain_set,
            terrain_index,
        ),
{
    paint_terrain_at_target_with_debug(
        tiles,
        width,
        height,
        PaintTarget::HorizontalEdge { tile_x, edge_y },
        terrain_set,
        terrain_index,
        false,
    );
}

/// Paints terrain `terrain_index` on the vertical edge between cell
/// `(edge_x - 1, tile_y)` (its right) and `(edge_x, tile_y)` (its left).
pub fn paint_terrain_vertical_edge(
    tiles: &mut Vec<Option<u32>>,
    width: u32,
    height: u32,
    edge_x: u32,
    tile_y: u32,
    terrain_set: &TerrainSet,
    terrain_index: usize,
)
    requires
        terrain_set.wf(),
        old(tiles)@.len() == width * height,
        width <= i32::MAX,
        height <= i32::MAX,
        terrain_index < 255,
    ensures
        final(tiles)@.len() == old(tiles)@.len(),
        final(tiles)@ == paint_spec(
            old(tiles)@,
            width,
            height,
            PaintTarget::VerticalEdge { edge_x, tile_y },
            *terrain_set,
            terrain_index,
        ),
{
    paint_terrain_at_target_with_debug(
        tiles,
        width,
        height,
        PaintTarget::VerticalEdge { edge_x, tile_y },
        terrain_set,
        terrain_index,
        false,
    );
}

/// The record of a cell that prefers `color` everywhere and requires nothing.
pub open spec fn preferring(color: u8) -> CellInfo {
    CellInfo {
        desired: WangId { colors: [color, color, color, color, color, color, color, color] },
        mask: [false, false, false, false, false, false, false, false],
    }
}

/// Refills the single cell `(x, y)` preferring terrain `primary_terrain`
/// at all eight positions (random source seeded with 0); a cell off the
/// grid leaves the grid as it is.
pub fn update_tile_with_neighbors(
    tiles: &mut Vec<Option<u32>>,
    width: u32,
    height: u32,
    x: i32,
    y: i32,
    terrain_set: &TerrainSet,
    primary_terrain: usize,
)
    requires
        terrain_set.wf(),
        old(tiles)@.len() == width * height,
        width <= i32::MAX,
        height <= i32::MAX,
        primary_terrain < 255,
    ensures
        final(tiles)@ == if in_bounds(x as int, y as int, width, height) {
            apply_spec(
                *terrain_set,
                width,
                height,
                seq![(x, y)],
                0,
                seq![((x, y), preferring((primary_terrain + 1) as u8))],
                old(tiles)@,
                0,
            ).grid
        } else {
            old(tiles)@
        },
{
    if x < 0 || y < 0 || x as i64 >= width as i64 || y as i64 >= height as i64 {
        return;
    }
    let color = (primary_terrain + 1) as u8;
    let mut filler = WangFiller::new(terrain_set);
    let cell = filler.get_cell_mut(x, y);
    *cell = CellInfo {
        desired: WangId { colors: [color, color, color, color, color, color, color, color] },
        mask: [false, false, false, false, false, false, false, false],
    };
    let region = vec![(x, y)];
    assert(region@ =~= seq![(x, y)]);
    assert(filler.cells_spec() =~= seq![((x, y), preferring(color))]);
    filler.apply(tiles, width, height, region.as_slice());
}

/// The cell at row-major index `i` of a grid `width` wide.
pub open spec fn cell_at_index(i: int, width: u32) -> (i32, i32) {
    ((i % width as int) as i32, (i / width as int) as i32)
}

/// The cells among the first `n` of the grid, in row-major order, whose
/// tile differs between two grids and is a tile in the second, with that tile.
pub open spec fn grid_diff_upto(before: Seq<Option<u32>>, after: Seq<Option<u32>>, width: u32, n: int) -> Seq<
    ((i32, i32), u32),
>
    decreases n,
{
    if n <= 0 {
        Seq::empty()
    } else {
        let prev = grid_diff_upto(before, after, width, n - 1);
        if after[n - 1] != before[n - 1] && after[n - 1] is Some {
            prev.push((cell_at_index(n - 1, width), after[n - 1]->0))
        } else {
            prev
        }
    }
}

/// Every cell of the grid whose tile differs between two grids and is a
/// tile in the second, with that tile, in row-major order.
pub open spec fn grid_diff(before: Seq<Option<u32>>, after: Seq<Option<u32>>, width: u32) -> Seq<((i32, i32), u32)> {
    grid_diff_upto(before, after, width, before.len() as int)
}

/// Index `i` of the grid is the cell `cell_at_index(i, width)`, which is on it.
pub proof fn lemma_cell_at_index(i: int, width: u32, height: u32)
    requires
        0 <= i < width * height,
        width <= i32::MAX,
        height <= i32::MAX,
    ensures
        in_bounds(cell_at_index(i, width).0 as int, cell_at_index(i, width).1 as int, width, height),
        grid_index(cell_at_index(i, width).0 as int, cell_at_index(i, width).1 as int, width) == i,
        cell_at_index(i, width).0 as int == i % width as int,
        cell_at_index(i, width).1 as int == i / width as int,
{
    assert(width > 0) by (nonlinear_arith)
        requires
            0 <= i < width * height,
            height >= 0,
    ;
    vstd::arithmetic::div_mod::lemma_fundamental_div_mod(i, width as int);
    let x = i % width as int;
    let y = i / width as int;
    assert(0 <= y < height) by (nonlinear_arith)
        requires
            i == width * y + x,
            0 <= x < width,
            0 <= i < width * height,
    ;
    assert(grid_index(x, y, width) == i) by (nonlinear_arith)
        requires
            i == width * y + x,
    ;
}

/// A copy of a grid.
fn copy_grid(tiles: &Vec<Option<u32>>) -> (r: Vec<Option<u32>>)
    ensures
        r@ == tiles@,
{
    let mut r: Vec<Option<u32>> = Vec::new();
    let mut i: usize = 0;
    while i < tiles.len()
        invariant
            i <= tiles@.len(),
            r@ == tiles@.subrange(0, i as int),
        decreases tiles@.len() - i,
    {
        r.push(tiles[i]);
        i = i + 1;
        assert(r@ =~= tiles@.subrange(0, i as int));
    }
    assert(tiles@.subrange(0, tiles@.len() as int) =~= tiles@);
    r
}

/// Every cell whose tile differs between two grids and is a tile in the
/// second, with that tile, in row-major order.
fn diff_grid(before: &Vec<Option<u32>>, after: &Vec<Option<u32>>, width: u32, height: u32) -> (r: Vec<((i32, i32), u32)>)
    requires
        before@.len() == width * height,
        after@.len() == width * height,
        width <= i32::MAX,
        height <= i32::MAX,
    ensures
        r@ == grid_diff(before@, after@, width),
{
    let mut r: Vec<((i32, i32), u32)> = Vec::new();
    let mut i: usize = 0;
    while i < before.len()
        invariant
            i <= before@.len(),
            before@.len() == width * height,
            after@.len() == width * height,
            width <= i32::MAX,
            height <= i32::MAX,
            r@ == grid_diff_upto(before@, after@, width, i as int),
        decreases before@.len() - i,
    {
        let new_tile = after[i];
        match new_tile {
            Some(t) => {
                let changed = match before[i] {
                    Some(o) => o != t,
                    None => true,
                };
                if changed {
                    proof {
                        lemma_cell_at_index(i as int, width, height);
                    }
                    let x = (i % (width as usize)) as i32;
                    let y = (i / (width as usize)) as i32;
                    r.push(((x, y), t));
                }
            },
            None => {},
        }
        i = i + 1;
    }
    r
}

/// What painting terrain `terrain_index` at `target` would change: every
/// cell whose tile would differ afterwards, with its new tile, in row-major
/// order. The grid itself is not changed.
pub fn preview_terrain_at_target(
    tiles: &Vec<Option<u32>>,
    width: u32,
    height: u32,
    target: PaintTarget,
    terrain_set: &TerrainSet,
    terrain_index: usize,
) -> (r: Vec<((i32, i32), u32)>)
    requires
        terrain_set.wf(),
        tiles@.len() == width * height,
        width <= i32::MAX,
        height <= i32::MAX,
        terrain_index < 255,
    ensures
        r@ == grid_diff(tiles@, paint_spec(tiles@, width, height, target, *terrain_set, terrain_index), width),
{
    let mut preview_tiles = copy_grid(tiles);
    paint_terrain_at_target(&mut preview_tiles, width, height, target, terrain_set, terrain_index);
    diff_grid(tiles, &preview_tiles, width, height)
}

/// The grid after painting the first `n` targets in order.
pub open spec fn paint_all(
    grid: Seq<Option<u32>>,
    width: u32,
    height: u32,
    targets: Seq<PaintTarget>,
    ts: TerrainSet,
    terrain_index: usize,
    n: int,
) -> Seq<Option<u32>>
    decreases n,
{
    if n <= 0 {
        grid
    } else {
        paint_spec(paint_all(grid, width, height, targets, ts, terrain_index, n - 1), width, height, targets[n - 1], ts, terrain_index)
    }
}

/// What painting terrain `terrain_index` at each target in turn, on one
/// copy of the grid, would change: every cell whose tile differs at the
/// end, with its new tile, in row-major order. The grid itself is not
/// changed.
pub fn preview_terrain_at_targets(
    tiles: &Vec<Option<u32>>,
    width: u32,
    height: u32,
    targets: &[PaintTarget],
    terrain_set: &TerrainSet,
    terrain_index: usize,
) -> (r: Vec<((i32, i32), u32)>)
    requires
        terrain_set.wf(),
        tiles@.len() == width * height,
        width <= i32::MAX,
        height <= i32::MAX,
        terrain_index < 255,
    ensures
        r@ == grid_diff(
            tiles@,
            paint_all(tiles@, width, height, targets@, *terrain_set, terrain_index, targets@.len() as int),
            width,
        ),
{
    let mut preview_tiles = copy_grid(tiles);
    let mut t: usize = 0;
    while t < targets.len()
        invariant
            t <= targets@.len(),
            terrain_set.wf(),
            width <= i32::MAX,
            height <= i32::MAX,
            terrain_index < 255,
            tiles@.len() == width * height,
            preview_tiles@.len() == width * height,
            preview_tiles@ == paint_all(tiles@, width, height, targets@, *terrain_set, terrain_index, t as int),
        decreases targets@.len() - t,
    {
        paint_terrain_at_target(&mut preview_tiles, width, height, targets[t], terrain_set, terrain_index);
        t = t + 1;
    }
    diff_grid(tiles, &preview_tiles, width, height)
}

} // verus!
