//! What the fill engine and painting guarantee, stated over the models in
//! `filler`, `paint` and `select` and proved from them.

use vstd::prelude::*;
use vstd::arithmetic::div_mod::lemma_fundamental_div_mod_converse;
use crate::filler::{
    apply_spec, build_step, build_upto, cell_of, correct_upto, dx, dy, grid_index, in_bounds, lemma_grid_index, lemma_put_then_get,
    place_upto, propagate_step, propagate_upto, put_cell, select_spec, soften_upto, tile_at, FillState,
};
use crate::paint::{
    affected, cell_at_index, grid_diff, grid_diff_upto, lemma_cell_at_index, on_grid_upto, paint_spec, region_of,
    seeded_cells, target_cells, PaintTarget,
};
use crate::position::{preferred, CellInfo};
use crate::select::{
    best_upto, candidates, candidates_upto, has_terrain, pick_from, position_penalty, score_upto, tile_score,
};
use crate::terrain::{is_active, TerrainSet};

verus! {

/// Painting is a function of the grid, the target, the terrain set and the
/// terrain: from equal grids, painting the same target with the same set
/// and terrain gives equal grids.
pub proof fn lemma_paint_deterministic(
    grid1: Seq<Option<u32>>,
    grid2: Seq<Option<u32>>,
    width: u32,
    height: u32,
    target: PaintTarget,
    ts: TerrainSet,
    terrain_index: usize,
)
    requires
        grid1 == grid2,
    ensures
        paint_spec(grid1, width, height, target, ts, terrain_index) == paint_spec(
            grid2,
            width,
            height,
            target,
            ts,
            terrain_index,
        ),
{
}

/// Whether a tile with colors `have` shows the required color at every
/// active position that `cell` requires.
pub open spec fn meets_requirements(ts: TerrainSet, cell: CellInfo, have: Seq<u8>) -> bool {
    forall|i: int|
        0 <= i < 8 && is_active(ts.set_type, i) && #[trigger] cell.mask@[i] ==> have[i] == cell.desired.colors@[i]
}

proof fn lemma_score_meets(ts: TerrainSet, cell: CellInfo, have: Seq<u8>, n: int)
    requires
        0 <= n <= 8,
    ensures
        score_upto(ts, cell, have, n) is Some <==> forall|i: int|
            0 <= i < n && is_active(ts.set_type, i) && #[trigger] cell.mask@[i] ==> have[i] == cell.desired.colors@[i],
    decreases n,
{
    if n > 0 {
        lemma_score_meets(ts, cell, have, n - 1);
        let i = n - 1;
        if is_active(ts.set_type, i) && cell.mask@[i] && have[i] != cell.desired.colors@[i] {
            assert(position_penalty(ts, cell, have, i) is None);
        }
    }
}

proof fn lemma_candidates_from_tiles(ts: TerrainSet, cell: CellInfo, best: int, n: int)
    requires
        0 <= n <= ts.tiles@.len(),
    ensures
        forall|j: int|
            0 <= j < candidates_upto(ts, cell, best, n).len() ==> exists|k: int|
                0 <= k < n && ts.tiles@[k].tile_id == (#[trigger] candidates_upto(ts, cell, best, n)[j]).0
                    && tile_score(ts, cell, k) == Some(best),
    decreases n,
{
    if n > 0 {
        lemma_candidates_from_tiles(ts, cell, best, n - 1);
        let prev = candidates_upto(ts, cell, best, n - 1);
        let cur = candidates_upto(ts, cell, best, n);
        assert forall|j: int| 0 <= j < cur.len() implies exists|k: int|
            0 <= k < n && ts.tiles@[k].tile_id == (#[trigger] cur[j]).0 && tile_score(ts, cell, k) == Some(best) by {
            if j < prev.len() {
                assert(cur[j] == prev[j]);
                let k = choose|k: int|
                    0 <= k < n - 1 && ts.tiles@[k].tile_id == (#[trigger] prev[j]).0 && tile_score(ts, cell, k) == Some(best);
                assert(0 <= k < n && ts.tiles@[k].tile_id == cur[j].0 && tile_score(ts, cell, k) == Some(best));
            } else {
                assert(0 <= n - 1 < n && ts.tiles@[n - 1].tile_id == cur[j].0 && tile_score(ts, cell, n - 1) == Some(best));
            }
        }
    }
}

proof fn lemma_pick_is_member(c: Seq<(u32, u32)>, r: int, i: int)
    requires
        0 <= i < c.len(),
    ensures
        exists|j: int| i <= j < c.len() && #[trigger] c[j].0 == pick_from(c, r, i),
    decreases c.len() - i,
{
    if i >= c.len() - 1 {
        assert(c[c.len() - 1].0 == pick_from(c, r, i));
    } else if r < crate::select::weight_sum(c, i + 1) {
        assert(c[i].0 == pick_from(c, r, i));
    } else {
        lemma_pick_is_member(c, r, i + 1);
    }
}

proof fn lemma_best_none(ts: TerrainSet, cell: CellInfo, n: int)
    requires
        0 <= n <= ts.tiles@.len(),
    ensures
        best_upto(ts, cell, n) is None <==> forall|k: int| 0 <= k < n ==> #[trigger] tile_score(ts, cell, k) is None,
        best_upto(ts, cell, n) matches Some(b) ==> exists|k: int| 0 <= k < n && #[trigger] tile_score(ts, cell, k) == Some(b),
    decreases n,
{
    if n > 0 {
        lemma_best_none(ts, cell, n - 1);
        if tile_score(ts, cell, n - 1) is Some {
            assert(tile_score(ts, cell, n - 1) is Some);
        }
    }
}

/// A chosen tile meets every requirement of the cell at the positions that
/// its set type matches on; no tile is chosen only when every tile with
/// terrain breaks some such requirement. In a well-formed set (distinct
/// ids) the colors looked up by the chosen id, which placement writes and
/// propagates, are those of the tile that met the requirements.
pub proof fn lemma_choice_meets_requirements(ts: TerrainSet, cell: CellInfo, seed: u64, drawn: u64)
    ensures
        select_spec(ts, cell, seed, drawn).0 matches Some(id) ==> exists|k: int|
            0 <= k < ts.tiles@.len() && #[trigger] ts.tiles@[k].tile_id == id && has_terrain(ts.colors_at(k))
                && meets_requirements(ts, cell, ts.colors_at(k)),
        select_spec(ts, cell, seed, drawn).0 is None ==> forall|k: int|
            0 <= k < ts.tiles@.len() && has_terrain(#[trigger] ts.colors_at(k)) ==> !meets_requirements(
                ts,
                cell,
                ts.colors_at(k),
            ),
        ts.wf() && select_spec(ts, cell, seed, drawn).0 is Some ==> (ts.colors_of_tile(
            select_spec(ts, cell, seed, drawn).0->0,
        ) matches Some(c) && has_terrain(c) && meets_requirements(ts, cell, c)),
{
    let n = ts.tiles@.len() as int;
    let c = candidates(ts, cell);
    lemma_best_none(ts, cell, n);
    match best_upto(ts, cell, n) {
        Some(b) => {
            lemma_candidates_from_tiles(ts, cell, b, n);
            let k0 = choose|k: int| 0 <= k < n && #[trigger] tile_score(ts, cell, k) == Some(b);
            assert(c.len() > 0) by {
                lemma_candidate_present(ts, cell, b, n, k0);
            }
            let choice = select_spec(ts, cell, seed, drawn).0;
            let id = choice->0;
            let j = if crate::select::needs_draw(c) {
                let draw = crate::filler::seeded_draw(seed, drawn);
                let total = crate::select::weight_sum(c, c.len() as int);
                lemma_pick_is_member(c, crate::select::scaled_draw(draw, total), 0);
                choose|j: int| 0 <= j < c.len() && #[trigger] c[j].0 == id
            } else {
                0
            };
            assert(c[j].0 == id);
            let k = choose|k: int|
                0 <= k < n && ts.tiles@[k].tile_id == (#[trigger] candidates_upto(ts, cell, b, n)[j]).0
                    && tile_score(ts, cell, k) == Some(b);
            lemma_score_meets(ts, cell, ts.colors_at(k), 8);
            assert(ts.tiles@[k].tile_id == id && has_terrain(ts.colors_at(k)) && meets_requirements(ts, cell, ts.colors_at(k)));
            crate::terrain::lemma_find_tile_from(ts.tiles@, id, 0);
            if ts.wf() {
                let f = crate::terrain::find_tile_from(ts.tiles@, id, 0);
                assert(f == Some(k)) by {
                    if f != Some(k) {
                        let k2 = f->0;
                        assert(ts.tiles@[k2].tile_id == id);
                        if k2 < k {
                            assert(ts.tiles@[k2].tile_id != ts.tiles@[k].tile_id);
                        }
                    }
                }
            }
        },
        None => {
            assert forall|k: int| 0 <= k < n && has_terrain(#[trigger] ts.colors_at(k)) implies !meets_requirements(
                ts,
                cell,
                ts.colors_at(k),
            ) by {
                assert(tile_score(ts, cell, k) is None);
                lemma_score_meets(ts, cell, ts.colors_at(k), 8);
            }
        },
    }
}

proof fn lemma_candidate_present(ts: TerrainSet, cell: CellInfo, best: int, n: int, k: int)
    requires
        0 <= k < n <= ts.tiles@.len(),
        tile_score(ts, cell, k) == Some(best),
    ensures
        candidates_upto(ts, cell, best, n).len() > 0,
    decreases n,
{
    if k < n - 1 {
        lemma_candidate_present(ts, cell, best, n - 1, k);
    }
}

proof fn lemma_soften_keeps_mask(c: CellInfo, colors: Seq<u8>, n: int)
    requires
        0 <= n <= 8,
    ensures
        soften_upto(c, colors, n).mask == c.mask,
    decreases n,
{
    if n > 0 {
        lemma_soften_keeps_mask(c, colors, n - 1);
        let prev = soften_upto(c, colors, n - 1);
        if colors[n - 1] != 0 {
            assert(preferred(prev, n - 1, colors[n - 1]).mask == prev.mask);
        }
    }
}

/// Gathering preferences, from a cell's own tile and from its neighbors,
/// never makes a position required: after the first phase every cell's
/// mask is what it was before.
pub proof fn lemma_preferences_never_require(
    ts: TerrainSet,
    grid: Seq<Option<u32>>,
    width: u32,
    height: u32,
    region: Seq<(i32, i32)>,
    cells: Seq<((i32, i32), CellInfo)>,
    k: (i32, i32),
)
    ensures
        cell_of(build_upto(ts, grid, width, height, region, cells, region.len() as int), k).mask == cell_of(
            cells,
            k,
        ).mask,
{
    lemma_build_keeps_masks(ts, grid, width, height, region, cells, k, region.len() as int);
}

proof fn lemma_build_keeps_masks(
    ts: TerrainSet,
    grid: Seq<Option<u32>>,
    width: u32,
    height: u32,
    region: Seq<(i32, i32)>,
    cells: Seq<((i32, i32), CellInfo)>,
    k: (i32, i32),
    n: int,
)
    requires
        0 <= n <= region.len(),
    ensures
        cell_of(build_upto(ts, grid, width, height, region, cells, n), k).mask == cell_of(cells, k).mask,
    decreases n,
{
    if n > 0 {
        lemma_build_keeps_masks(ts, grid, width, height, region, cells, k, n - 1);
        let prev = build_upto(ts, grid, width, height, region, cells, n - 1);
        let r = region[n - 1];
        let own = soften_upto(
            cell_of(prev, r),
            crate::filler::colors_at_cell(ts, grid, width, height, r.0 as int, r.1 as int),
            8,
        );
        let merged = soften_upto(own, crate::filler::surround_colors(ts, grid, width, height, r.0 as int, r.1 as int), 8);
        lemma_soften_keeps_mask(
            cell_of(prev, r),
            crate::filler::colors_at_cell(ts, grid, width, height, r.0 as int, r.1 as int),
            8,
        );
        lemma_soften_keeps_mask(own, crate::filler::surround_colors(ts, grid, width, height, r.0 as int, r.1 as int), 8);
        lemma_put_then_get(prev, r, merged);
        assert(build_step(ts, grid, width, height, prev, r) == put_cell(prev, r, merged));
    }
}

proof fn lemma_on_grid_members(list: Seq<(i64, i64, usize)>, width: u32, height: u32, n: int)
    requires
        0 <= n <= list.len(),
    ensures
        forall|i: int|
            0 <= i < on_grid_upto(list, width, height, n).len() ==> exists|j: int|
                0 <= j < n && list[j] == #[trigger] on_grid_upto(list, width, height, n)[i],
    decreases n,
{
    if n > 0 {
        lemma_on_grid_members(list, width, height, n - 1);
        let prev = on_grid_upto(list, width, height, n - 1);
        let cur = on_grid_upto(list, width, height, n);
        assert forall|i: int| 0 <= i < cur.len() implies exists|j: int| 0 <= j < n && list[j] == #[trigger] cur[i] by {
            if i < prev.len() {
                assert(cur[i] == prev[i]);
                let j = choose|j: int| 0 <= j < n - 1 && list[j] == #[trigger] prev[i];
                assert(0 <= j < n && list[j] == cur[i]);
            } else {
                assert(0 <= n - 1 < n && list[n - 1] == cur[i]);
            }
        }
    }
}

/// Whether clock index `i` is of the kind that a target paints: corners
/// for a corner target, edges for an edge target.
pub open spec fn paints_kind(target: PaintTarget, i: int) -> bool {
    match target {
        PaintTarget::Corner { .. } => i % 2 == 1,
        _ => i % 2 == 0,
    }
}

proof fn lemma_seeded_kind(cells: Seq<(i64, i64, usize)>, target: PaintTarget, color: u8, n: int, k: (i32, i32))
    requires
        0 <= n <= cells.len(),
        forall|j: int| 0 <= j < cells.len() ==> paints_kind(target, #[trigger] cells[j].2 as int) && cells[j].2 < 8,
    ensures
        forall|i: int|
            0 <= i < 8 && #[trigger] cell_of(seeded_cells(cells, color, n), k).mask@[i] ==> paints_kind(target, i),
    decreases n,
{
    if n > 0 {
        lemma_seeded_kind(cells, target, color, n - 1, k);
        let prev = seeded_cells(cells, color, n - 1);
        let kk = (cells[n - 1].0 as i32, cells[n - 1].1 as i32);
        let pos = cells[n - 1].2 as int;
        let c = crate::position::constrained(cell_of(prev, kk), pos, color);
        lemma_put_then_get(prev, kk, c);
        assert(paints_kind(target, cells[n - 1].2 as int));
        if k == kk {
            assert forall|i: int| 0 <= i < 8 && #[trigger] c.mask@[i] implies paints_kind(target, i) by {
                if i != pos {
                    assert(c.mask@[i] == cell_of(prev, kk).mask@[i]);
                }
            }
        }
    }
}

/// Corners and edges are painted independently: in the records that
/// painting a target starts from, a corner target requires no edge
/// position of any cell, and an edge target no corner position.
pub proof fn lemma_paint_requires_only_its_kind(
    target: PaintTarget,
    width: u32,
    height: u32,
    color: u8,
    k: (i32, i32),
)
    ensures
        forall|i: int|
            0 <= i < 8 && #[trigger] cell_of(
                seeded_cells(affected(target, width, height), color, affected(target, width, height).len() as int),
                k,
            ).mask@[i] ==> paints_kind(target, i),
{
    let all = target_cells(target);
    let cells = affected(target, width, height);
    lemma_on_grid_members(all, width, height, all.len() as int);
    assert forall|j: int| 0 <= j < cells.len() implies paints_kind(target, #[trigger] cells[j].2 as int) && cells[j].2
        < 8 by {
        let m = choose|m: int| 0 <= m < all.len() && all[m] == #[trigger] cells[j];
        assert(all[m] == cells[j]);
    }
    lemma_seeded_kind(cells, target, color, cells.len() as int, k);
}

proof fn lemma_grid_diff(before: Seq<Option<u32>>, after: Seq<Option<u32>>, width: u32, height: u32, n: int)
    requires
        0 <= n <= width * height,
        width <= i32::MAX,
        height <= i32::MAX,
    ensures
        forall|j: int|
            0 <= j < grid_diff_upto(before, after, width, n).len() ==> {
                let e = #[trigger] grid_diff_upto(before, after, width, n)[j];
                let i = grid_index(e.0.0 as int, e.0.1 as int, width);
                &&& in_bounds(e.0.0 as int, e.0.1 as int, width, height)
                &&& 0 <= i < n
                &&& after[i] == Some(e.1)
                &&& before[i] != Some(e.1)
            },
        forall|j: int, l: int|
            0 <= j < l < grid_diff_upto(before, after, width, n).len() ==> grid_index(
                (#[trigger] grid_diff_upto(before, after, width, n)[j]).0.0 as int,
                grid_diff_upto(before, after, width, n)[j].0.1 as int,
                width,
            ) < grid_index(
                (#[trigger] grid_diff_upto(before, after, width, n)[l]).0.0 as int,
                grid_diff_upto(before, after, width, n)[l].0.1 as int,
                width,
            ),
        forall|i: int|
            0 <= i < n && #[trigger] after[i] != before[i] && after[i] is Some ==> grid_diff_upto(
                before,
                after,
                width,
                n,
            ).contains((cell_at_index(i, width), after[i]->0)),
    decreases n,
{
    if n > 0 {
        lemma_grid_diff(before, after, width, height, n - 1);
        let prev = grid_diff_upto(before, after, width, n - 1);
        let cur = grid_diff_upto(before, after, width, n);
        lemma_cell_at_index(n - 1, width, height);
        assert forall|j: int| 0 <= j < cur.len() implies {
            let e = #[trigger] cur[j];
            let i = grid_index(e.0.0 as int, e.0.1 as int, width);
            &&& in_bounds(e.0.0 as int, e.0.1 as int, width, height)
            &&& 0 <= i < n
            &&& after[i] == Some(e.1)
            &&& before[i] != Some(e.1)
        } by {
            if j < prev.len() {
                assert(cur[j] == prev[j]);
            }
        }
        assert forall|j: int, l: int| 0 <= j < l < cur.len() implies grid_index(
            (#[trigger] cur[j]).0.0 as int,
            cur[j].0.1 as int,
            width,
        ) < grid_index((#[trigger] cur[l]).0.0 as int, cur[l].0.1 as int, width) by {
            assert(cur[j] == prev[j]);
            if l < prev.len() {
                assert(cur[l] == prev[l]);
            }
        }
        assert forall|i: int| 0 <= i < n && #[trigger] after[i] != before[i] && after[i] is Some implies cur.contains(
            (cell_at_index(i, width), after[i]->0),
        ) by {
            if i < n - 1 {
                let w = choose|w: int| 0 <= w < prev.len() && prev[w] == (cell_at_index(i, width), after[i]->0);
                assert(cur[w] == prev[w]);
            } else {
                assert(cur[prev.len() as int] == (cell_at_index(i, width), after[i]->0));
            }
        }
    }
}

/// A preview lists exactly what painting changes: each listed cell is on
/// the grid, holds the listed tile after painting and held something else
/// before; each cell that painting turns into a different tile is listed
/// with it; and no cell is listed twice (they come in row-major order).
/// (Previewing takes the grid by shared reference, so it never changes it.)
pub proof fn lemma_preview_is_paint_diff(
    grid: Seq<Option<u32>>,
    width: u32,
    height: u32,
    target: PaintTarget,
    ts: TerrainSet,
    terrain_index: usize,
)
    requires
        grid.len() == width * height,
        width <= i32::MAX,
        height <= i32::MAX,
    ensures
        ({
            let after = paint_spec(grid, width, height, target, ts, terrain_index);
            let d = grid_diff(grid, after, width);
            &&& forall|j: int|
                0 <= j < d.len() ==> {
                    let i = grid_index((#[trigger] d[j]).0.0 as int, d[j].0.1 as int, width);
                    &&& in_bounds(d[j].0.0 as int, d[j].0.1 as int, width, height)
                    &&& after[i] == Some(d[j].1)
                    &&& grid[i] != Some(d[j].1)
                }
            &&& forall|x: int, y: int|
                in_bounds(x, y, width, height) && #[trigger] after[grid_index(x, y, width)] != grid[grid_index(x, y, width)]
                    && after[grid_index(x, y, width)] is Some ==> d.contains(
                    ((x as i32, y as i32), after[grid_index(x, y, width)]->0),
                )
            &&& forall|j: int, l: int| 0 <= j < l < d.len() ==> (#[trigger] d[j]).0 != (#[trigger] d[l]).0
        }),
{
    let after = paint_spec(grid, width, height, target, ts, terrain_index);
    let d = grid_diff(grid, after, width);
    lemma_grid_diff(grid, after, width, height, grid.len() as int);
    assert forall|x: int, y: int|
        in_bounds(x, y, width, height) && #[trigger] after[grid_index(x, y, width)] != grid[grid_index(x, y, width)]
            && after[grid_index(x, y, width)] is Some implies d.contains(
        ((x as i32, y as i32), after[grid_index(x, y, width)]->0),
    ) by {
        let i = grid_index(x, y, width);
        lemma_grid_index(x, y, width, height);
        lemma_cell_at_index(i, width, height);
        lemma_index_unique(x, y, cell_at_index(i, width).0 as int, cell_at_index(i, width).1 as int, width, height);
    }
    assert forall|j: int, l: int| 0 <= j < l < d.len() implies (#[trigger] d[j]).0 != (#[trigger] d[l]).0 by {
        assert(grid_index(d[j].0.0 as int, d[j].0.1 as int, width) < grid_index(d[l].0.0 as int, d[l].0.1 as int, width));
    }
}

/// Whether `(x, y)` is on the grid and at most one step, in each
/// direction, from some cell of `region`.
pub open spec fn near_region(region: Seq<(i32, i32)>, x: int, y: int, width: u32, height: u32) -> bool {
    in_bounds(x, y, width, height) && exists|j: int|
        0 <= j < region.len() && -1 <= x - (#[trigger] region[j]).0 <= 1 && -1 <= y - region[j].1 <= 1
}

/// Whether every cell that differs between two grids lies near `region`.
pub open spec fn changes_near(
    region: Seq<(i32, i32)>,
    before: Seq<Option<u32>>,
    after: Seq<Option<u32>>,
    width: u32,
    height: u32,
) -> bool {
    &&& after.len() == before.len()
    &&& forall|x: int, y: int|
        in_bounds(x, y, width, height) && #[trigger] after[grid_index(x, y, width)] != before[grid_index(x, y, width)]
            ==> near_region(region, x, y, width, height)
}

/// Whether every queued cell lies near `region`.
pub open spec fn queue_near(region: Seq<(i32, i32)>, queue: Seq<(i32, i32)>, width: u32, height: u32) -> bool {
    forall|i: int| 0 <= i < queue.len() ==> near_region(region, (#[trigger] queue[i]).0 as int, queue[i].1 as int, width, height)
}

proof fn lemma_index_unique(x1: int, y1: int, x2: int, y2: int, width: u32, height: u32)
    requires
        in_bounds(x1, y1, width, height),
        in_bounds(x2, y2, width, height),
        grid_index(x1, y1, width) == grid_index(x2, y2, width),
    ensures
        x1 == x2 && y1 == y2,
{
    let i = grid_index(x1, y1, width);
    lemma_fundamental_div_mod_converse(i, width as int, y1, x1);
    lemma_fundamental_div_mod_converse(i, width as int, y2, x2);
}

proof fn lemma_write_near(
    region: Seq<(i32, i32)>,
    before: Seq<Option<u32>>,
    grid: Seq<Option<u32>>,
    width: u32,
    height: u32,
    k: (i32, i32),
    t: u32,
)
    requires
        grid.len() == width * height,
        changes_near(region, before, grid, width, height),
        near_region(region, k.0 as int, k.1 as int, width, height),
    ensures
        changes_near(region, before, grid.update(grid_index(k.0 as int, k.1 as int, width), Some(t)), width, height),
{
    let ki = grid_index(k.0 as int, k.1 as int, width);
    lemma_grid_index(k.0 as int, k.1 as int, width, height);
    let after = grid.update(ki, Some(t));
    assert forall|x: int, y: int|
        in_bounds(x, y, width, height) && #[trigger] after[grid_index(x, y, width)] != before[grid_index(x, y, width)]
            implies near_region(region, x, y, width, height) by {
        lemma_grid_index(x, y, width, height);
        if grid_index(x, y, width) == ki {
            lemma_index_unique(x, y, k.0 as int, k.1 as int, width, height);
        } else {
            assert(after[grid_index(x, y, width)] == grid[grid_index(x, y, width)]);
        }
    }
}

proof fn lemma_propagate_near(
    ts: TerrainSet,
    width: u32,
    height: u32,
    region: Seq<(i32, i32)>,
    s: FillState,
    k: (i32, i32),
    placed: Seq<u8>,
    n: int,
)
    requires
        0 <= n <= 8,
        width <= i32::MAX,
        height <= i32::MAX,
        region.contains(k),
        queue_near(region, s.corrections, width, height),
    ensures
        propagate_upto(ts, width, height, region, s, k, placed, n).grid == s.grid,
        propagate_upto(ts, width, height, region, s, k, placed, n).drawn == s.drawn,
        queue_near(region, propagate_upto(ts, width, height, region, s, k, placed, n).corrections, width, height),
    decreases n,
{
    if n > 0 {
        lemma_propagate_near(ts, width, height, region, s, k, placed, n - 1);
        let prev = propagate_upto(ts, width, height, region, s, k, placed, n - 1);
        let d = n - 1;
        let nx = k.0 + dx(d);
        let ny = k.1 + dy(d);
        let next = propagate_step(ts, width, height, region, prev, k, placed, d);
        if tile_at(prev.grid, width, height, nx, ny) is Some {
            let nk = (nx as i32, ny as i32);
            let j = choose|j: int| 0 <= j < region.len() && region[j] == k;
            assert(near_region(region, nx, ny, width, height)) by {
                assert(0 <= j < region.len() && -1 <= nx - region[j].0 <= 1 && -1 <= ny - region[j].1 <= 1);
            }
            assert forall|i: int| 0 <= i < next.corrections.len() implies near_region(
                region,
                (#[trigger] next.corrections[i]).0 as int,
                next.corrections[i].1 as int,
                width,
                height,
            ) by {
                if i < prev.corrections.len() {
                    assert(next.corrections[i] == prev.corrections[i]);
                } else {
                    assert(next.corrections[i] == nk);
                }
            }
        }
    }
}

proof fn lemma_place_near(
    ts: TerrainSet,
    width: u32,
    height: u32,
    region: Seq<(i32, i32)>,
    seed: u64,
    s: FillState,
    n: int,
)
    requires
        0 <= n <= region.len(),
        width <= i32::MAX,
        height <= i32::MAX,
        s.grid.len() == width * height,
        s.corrections.len() == 0,
    ensures
        changes_near(region, s.grid, place_upto(ts, width, height, region, seed, s, n).grid, width, height),
        queue_near(region, place_upto(ts, width, height, region, seed, s, n).corrections, width, height),
    decreases n,
{
    if n == 0 {
        assert(changes_near(region, s.grid, s.grid, width, height));
    } else {
        lemma_place_near(ts, width, height, region, seed, s, n - 1);
        let prev = place_upto(ts, width, height, region, seed, s, n - 1);
        let k = region[n - 1];
        assert(region.contains(k)) by {
            assert(region[n - 1] == k);
        }
        if in_bounds(k.0 as int, k.1 as int, width, height) {
            let (choice, drawn) = select_spec(ts, cell_of(prev.cells, k), seed, prev.drawn);
            if let Some(t) = choice {
                assert(near_region(region, k.0 as int, k.1 as int, width, height)) by {
                    assert(0 <= n - 1 < region.len() && region[n - 1] == k);
                }
                lemma_write_near(region, s.grid, prev.grid, width, height, k, t);
                let s1 = FillState {
                    grid: prev.grid.update(grid_index(k.0 as int, k.1 as int, width), Some(t)),
                    drawn,
                    ..prev
                };
                if let Some(placed) = ts.colors_of_tile(t) {
                    lemma_propagate_near(ts, width, height, region, s1, k, placed, 8);
                }
            }
        }
    }
}

proof fn lemma_correct_near(
    ts: TerrainSet,
    width: u32,
    height: u32,
    region: Seq<(i32, i32)>,
    seed: u64,
    queue: Seq<(i32, i32)>,
    s: FillState,
    n: int,
)
    requires
        0 <= n <= queue.len(),
        s.grid.len() == width * height,
        queue_near(region, queue, width, height),
    ensures
        changes_near(region, s.grid, correct_upto(ts, width, height, region, seed, queue, s, n).grid, width, height),
    decreases n,
{
    if n == 0 {
        assert(changes_near(region, s.grid, s.grid, width, height));
    } else {
        lemma_correct_near(ts, width, height, region, seed, queue, s, n - 1);
        let prev = correct_upto(ts, width, height, region, seed, queue, s, n - 1);
        let k = queue[n - 1];
        assert(near_region(region, k.0 as int, k.1 as int, width, height));
        if !region.contains(k) {
            if let Some(t) = tile_at(prev.grid, width, height, k.0 as int, k.1 as int) {
                if let Some(c) = ts.colors_of_tile(t) {
                    if crate::filler::violates(cell_of(prev.cells, k), c) {
                        let (choice, drawn) = select_spec(ts, cell_of(prev.cells, k), seed, prev.drawn);
                        if let Some(f) = choice {
                            lemma_write_near(region, s.grid, prev.grid, width, height, k, f);
                        }
                    }
                }
            }
        }
    }
}

/// A fill writes only on the grid, and only near its region: every cell
/// whose tile changes is on the grid and at most one step from a cell of
/// the region. A region wholly off the grid leaves the grid unchanged.
pub proof fn lemma_fill_stays_near_region(
    ts: TerrainSet,
    width: u32,
    height: u32,
    region: Seq<(i32, i32)>,
    seed: u64,
    cells: Seq<((i32, i32), CellInfo)>,
    grid: Seq<Option<u32>>,
    drawn: u64,
)
    requires
        grid.len() == width * height,
        width <= i32::MAX,
        height <= i32::MAX,
    ensures
        changes_near(region, grid, apply_spec(ts, width, height, region, seed, cells, grid, drawn).grid, width, height),
{
    let built = build_upto(ts, grid, width, height, region, cells, region.len() as int);
    let start = FillState { cells: built, grid, corrections: Seq::empty(), drawn };
    let placed = place_upto(ts, width, height, region, seed, start, region.len() as int);
    lemma_place_near(ts, width, height, region, seed, start, region.len() as int);
    lemma_correct_near(ts, width, height, region, seed, placed.corrections, placed, placed.corrections.len() as int);
    let last = apply_spec(ts, width, height, region, seed, cells, grid, drawn);
    assert forall|x: int, y: int|
        in_bounds(x, y, width, height) && #[trigger] last.grid[grid_index(x, y, width)] != grid[grid_index(x, y, width)]
            implies near_region(region, x, y, width, height) by {
        if placed.grid[grid_index(x, y, width)] != grid[grid_index(x, y, width)] {
        } else {
            assert(last.grid[grid_index(x, y, width)] != placed.grid[grid_index(x, y, width)]);
        }
    }
}

/// Painting writes only on the grid, near the cells that the target
/// touches on the grid: every cell whose tile changes is on the grid and at
/// most one step from a touched cell, and a target that touches no cell
/// on the grid leaves the grid unchanged.
pub proof fn lemma_paint_stays_near_target(
    grid: Seq<Option<u32>>,
    width: u32,
    height: u32,
    target: PaintTarget,
    ts: TerrainSet,
    terrain_index: usize,
)
    requires
        grid.len() == width * height,
        width <= i32::MAX,
        height <= i32::MAX,
    ensures
        changes_near(
            region_of(affected(target, width, height)),
            grid,
            paint_spec(grid, width, height, target, ts, terrain_index),
            width,
            height,
        ),
        affected(target, width, height).len() == 0 ==> paint_spec(grid, width, height, target, ts, terrain_index)
            =~= grid,
{
    let cells = affected(target, width, height);
    lemma_fill_stays_near_region(
        ts,
        width,
        height,
        region_of(cells),
        crate::paint::seed_of(target),
        seeded_cells(cells, (terrain_index + 1) as u8, cells.len() as int),
        grid,
        0,
    );
    let after = paint_spec(grid, width, height, target, ts, terrain_index);
    if cells.len() == 0 {
        assert forall|i: int| 0 <= i < grid.len() implies after[i] == grid[i] by {
            assert(width > 0) by (nonlinear_arith)
                requires
                    0 <= i < width * height,
                    height >= 0,
            ;
            let x = i % (width as int);
            let y = i / (width as int);
            vstd::arithmetic::div_mod::lemma_fundamental_div_mod(i, width as int);
            assert(0 <= y < height) by (nonlinear_arith)
                requires
                    i == width * y + x,
                    0 <= x < width,
                    0 <= i < width * height,
            ;
            assert(grid_index(x, y, width) == i) by (nonlinear_arith)
                requires
                    i == width * y + x,
            ;
        }
    }
}

} // verus!
