//! Scoring a tile against a cell's constraints, gathering the tiles of least
//! penalty, and the weighted pick among them.
//!
//! Penalties and weights are integers. A candidate's weight would be its
//! probability over `1 + penalty`, but every candidate has the same (least)
//! penalty, so that factor is common to all and the pick goes by the
//! probabilities alone.

use vstd::prelude::*;
use crate::position::{CellInfo, WangId};
use crate::terrain::{is_active, is_active_position, TerrainSet, UNSET_PENALTY};

verus! {

/// What clock index `i` adds to the penalty of a tile with colors `have`
/// in a cell; `None` where the tile breaks a requirement there.
pub open spec fn position_penalty(ts: TerrainSet, cell: CellInfo, have: Seq<u8>, i: int) -> Option<int> {
    let want = cell.desired.colors@[i];
    let got = have[i];
    if !is_active(ts.set_type, i) {
        Some(0)
    } else if cell.mask@[i] {
        if want == got {
            Some(0)
        } else {
            None
        }
    } else if want != 0 && want != got {
        if got == 0 {
            Some(UNSET_PENALTY as int)
        } else {
            Some(ts.penalty_spec(want - 1, got - 1))
        }
    } else {
        Some(0)
    }
}

/// The penalty over clock indices `0..n`; `None` once a requirement breaks.
pub open spec fn score_upto(ts: TerrainSet, cell: CellInfo, have: Seq<u8>, n: int) -> Option<int>
    decreases n,
{
    if n <= 0 {
        Some(0)
    } else {
        match (score_upto(ts, cell, have, n - 1), position_penalty(ts, cell, have, n - 1)) {
            (Some(a), Some(b)) => Some(a + b),
            _ => None,
        }
    }
}

/// The penalty of a tile with colors `have` in a cell, or `None` where it
/// breaks a requirement at an active position.
pub open spec fn score(ts: TerrainSet, cell: CellInfo, have: Seq<u8>) -> Option<int> {
    score_upto(ts, cell, have, 8)
}

/// Whether some of the eight colors is a terrain.
pub open spec fn has_terrain(colors: Seq<u8>) -> bool {
    exists|i: int| 0 <= i < 8 && #[trigger] colors[i] != 0
}

/// The score of the `k`-th tile; tiles without terrain take no part.
pub open spec fn tile_score(ts: TerrainSet, cell: CellInfo, k: int) -> Option<int> {
    if has_terrain(ts.colors_at(k)) {
        score(ts, cell, ts.colors_at(k))
    } else {
        None
    }
}

/// The least score among the first `n` tiles.
pub open spec fn best_upto(ts: TerrainSet, cell: CellInfo, n: int) -> Option<int>
    decreases n,
{
    if n <= 0 {
        None
    } else {
        match (best_upto(ts, cell, n - 1), tile_score(ts, cell, n - 1)) {
            (None, s) => s,
            (Some(b), None) => Some(b),
            (Some(b), Some(s)) => Some(if s < b {
                s
            } else {
                b
            }),
        }
    }
}

/// The (id, weight) of each of the first `n` tiles that scores `best`, in order.
pub open spec fn candidates_upto(ts: TerrainSet, cell: CellInfo, best: int, n: int) -> Seq<(u32, u32)>
    decreases n,
{
    if n <= 0 {
        Seq::empty()
    } else if tile_score(ts, cell, n - 1) == Some(best) {
        candidates_upto(ts, cell, best, n - 1).push(
            (ts.tiles@[n - 1].tile_id, ts.tiles@[n - 1].probability),
        )
    } else {
        candidates_upto(ts, cell, best, n - 1)
    }
}

/// The tiles of least penalty for a cell, with their weights, in set order.
pub open spec fn candidates(ts: TerrainSet, cell: CellInfo) -> Seq<(u32, u32)> {
    match best_upto(ts, cell, ts.tiles@.len() as int) {
        Some(b) => candidates_upto(ts, cell, b, ts.tiles@.len() as int),
        None => Seq::empty(),
    }
}

/// The sum of the first `n` weights.
pub open spec fn weight_sum(c: Seq<(u32, u32)>, n: int) -> int
    decreases n,
{
    if n <= 0 {
        0
    } else {
        weight_sum(c, n - 1) + c[n - 1].1
    }
}

/// A 32-bit draw scaled into `[0, total)`.
pub open spec fn scaled_draw(draw: u32, total: int) -> int {
    (draw as int * total) / 0x1_0000_0000
}

/// The first candidate from `i` on whose running weight sum exceeds `r`;
/// the last one if none does.
pub open spec fn pick_from(c: Seq<(u32, u32)>, r: int, i: int) -> u32
    decreases c.len() - i,
{
    if i >= c.len() - 1 {
        c[c.len() - 1].0
    } else if r < weight_sum(c, i + 1) {
        c[i].0
    } else {
        pick_from(c, r, i + 1)
    }
}

/// Whether picking among `c` takes a draw: two or more, with some weight.
pub open spec fn needs_draw(c: Seq<(u32, u32)>) -> bool {
    c.len() >= 2 && weight_sum(c, c.len() as int) > 0
}

/// The weighted pick among `c` for a draw: none from nothing; the first
/// where no draw is needed; else by running weight sums.
pub open spec fn choose_weighted(c: Seq<(u32, u32)>, draw: u32) -> Option<u32> {
    if c.len() == 0 {
        None
    } else if !needs_draw(c) {
        Some(c[0].0)
    } else {
        Some(pick_from(c, scaled_draw(draw, weight_sum(c, c.len() as int)), 0))
    }
}

proof fn lemma_score_none_stays(ts: TerrainSet, cell: CellInfo, have: Seq<u8>, n: int, m: int)
    requires
        0 <= n <= m,
        score_upto(ts, cell, have, n) is None,
    ensures
        score_upto(ts, cell, have, m) is None,
    decreases m - n,
{
    if n < m {
        lemma_score_none_stays(ts, cell, have, n, m - 1);
    }
}

/// Scores a tile with colors `tile_wang` against a cell's constraints.
pub fn score_tile(ts: &TerrainSet, cell: &CellInfo, tile_wang: &WangId) -> (r: Option<u64>)
    ensures
        score(*ts, *cell, tile_wang.colors@) == match r {
            Some(p) => Some(p as int),
            None => None::<int>,
        },
{
    let mut penalty: u64 = 0;
    let mut i: usize = 0;
    while i < 8
        invariant
            i <= 8,
            score_upto(*ts, *cell, tile_wang.colors@, i as int) == Some(penalty as int),
            penalty <= i * 0xffff_ffff,
        decreases 8 - i,
    {
        let want = cell.desired.colors[i];
        let have = tile_wang.colors[i];
        if is_active_position(ts.set_type, i) {
            if cell.mask[i] {
                if want != have {
                    proof {
                        lemma_score_none_stays(*ts, *cell, tile_wang.colors@, i + 1, 8);
                    }
                    return None;
                }
            } else if want != 0 && want != have {
                if have == 0 {
                    penalty = penalty + UNSET_PENALTY as u64;
                } else {
                    let cost = ts.transition_penalty((want - 1) as usize, (have - 1) as usize);
                    penalty = penalty + cost as u64;
                }
            }
        }
        i = i + 1;
    }
    Some(penalty)
}

proof fn lemma_best_upto(ts: TerrainSet, cell: CellInfo, n: int)
    requires
        0 <= n <= ts.tiles@.len(),
    ensures
        best_upto(ts, cell, n) is None ==> forall|k: int| 0 <= k < n ==> #[trigger] tile_score(ts, cell, k) is None,
        best_upto(ts, cell, n) matches Some(b) ==> forall|k: int|
            0 <= k < n && #[trigger] tile_score(ts, cell, k) is Some ==> tile_score(ts, cell, k)->0 >= b,
    decreases n,
{
    if n > 0 {
        lemma_best_upto(ts, cell, n - 1);
    }
}

proof fn lemma_no_candidates(ts: TerrainSet, cell: CellInfo, best: int, n: int)
    requires
        forall|k: int| 0 <= k < n ==> #[trigger] tile_score(ts, cell, k) != Some(best),
    ensures
        candidates_upto(ts, cell, best, n) == Seq::<(u32, u32)>::empty(),
    decreases n,
{
    if n > 0 {
        lemma_no_candidates(ts, cell, best, n - 1);
    }
}

/// The tiles of least penalty for a cell, with their weights, in set order.
pub fn collect_candidates(ts: &TerrainSet, cell: &CellInfo) -> (r: Vec<(u32, u32)>)
    ensures
        r@ == candidates(*ts, *cell),
{
    let mut cands: Vec<(u32, u32)> = Vec::new();
    let mut best: Option<u64> = None;
    let mut k: usize = 0;
    while k < ts.tiles.len()
        invariant
            k <= ts.tiles@.len(),
            match best_upto(*ts, *cell, k as int) {
                Some(b) => best matches Some(bb) && bb as int == b && cands@ == candidates_upto(*ts, *cell, b, k as int),
                None => best is None && cands@.len() == 0,
            },
        decreases ts.tiles@.len() - k,
    {
        proof {
            lemma_best_upto(*ts, *cell, k as int);
        }
        let tile = &ts.tiles[k];
        let wang = ts.tile_terrain_to_wang_id(&tile.terrain);
        let eligible = wang.has_any_terrain();
        assert(wang.colors@ == ts.colors_at(k as int));
        assert(eligible == has_terrain(ts.colors_at(k as int)));
        if eligible {
            match score_tile(ts, cell, &wang) {
                Some(p) => {
                    match best {
                        None => {
                            proof {
                                lemma_no_candidates(*ts, *cell, p as int, k as int);
                            }
                            best = Some(p);
                            cands.push((tile.tile_id, tile.probability));
                        },
                        Some(b) => {
                            if p < b {
                                proof {
                                    lemma_no_candidates(*ts, *cell, p as int, k as int);
                                }
                                best = Some(p);
                                cands.clear();
                                cands.push((tile.tile_id, tile.probability));
                            } else if p == b {
                                cands.push((tile.tile_id, tile.probability));
                            }
                        },
                    }
                },
                None => {},
            }
        }
        proof {
            let kk = k as int;
            assert(tile_score(*ts, *cell, kk) == (if eligible {
                score(*ts, *cell, wang.colors@)
            } else {
                None
            }));
            assert(best_upto(*ts, *cell, kk + 1) == match (best_upto(*ts, *cell, kk), tile_score(*ts, *cell, kk)) {
                (None, s) => s,
                (Some(b), None) => Some(b),
                (Some(b), Some(s)) => Some(if s < b { s } else { b }),
            });
        }
        k = k + 1;
    }
    cands
}

proof fn lemma_weight_sum_bound(c: Seq<(u32, u32)>, n: int)
    requires
        0 <= n <= c.len(),
    ensures
        0 <= weight_sum(c, n) <= n * 0xffff_ffff,
    decreases n,
{
    if n > 0 {
        lemma_weight_sum_bound(c, n - 1);
    }
}

/// Picks among candidates `(id, weight)` with a 32-bit draw: the draw,
/// scaled into `[0, total weight)`, falls into one candidate's share of the
/// running weight sum. No candidates give `None`; a single one, or no
/// weight at all, gives the first.
pub fn pick_weighted(candidates: &Vec<(u32, u32)>, draw: u32) -> (r: Option<u32>)
    ensures
        r == choose_weighted(candidates@, draw),
{
    let c = candidates;
    if c.len() == 0 {
        return None;
    }
    if c.len() == 1 {
        return Some(c[0].0);
    }
    let mut total: u128 = 0;
    let mut i: usize = 0;
    while i < c.len()
        invariant
            i <= c@.len(),
            total as int == weight_sum(c@, i as int),
        decreases c@.len() - i,
    {
        proof {
            lemma_weight_sum_bound(c@, i as int);
            assert(i * 0xffff_ffff + 0xffff_ffff <= 0xffff_ffff_ffff_ffff * 0xffff_ffff + 0xffff_ffff) by (nonlinear_arith)
                requires i <= 0xffff_ffff_ffff_ffff;
        }
        total = total + c[i].1 as u128;
        i = i + 1;
    }
    if total == 0 {
        return Some(c[0].0);
    }
    proof {
        lemma_weight_sum_bound(c@, c@.len() as int);
        let n = c@.len() as int;
        assert(draw as int * total as int <= 0xffff_ffff * (n * 0xffff_ffff)) by (nonlinear_arith)
            requires draw <= 0xffff_ffff, total <= n * 0xffff_ffff, 0 <= total, 0 <= draw;
        assert(0xffff_ffff * (n * 0xffff_ffff) < 0x1_0000_0000_0000_0000_0000_0000_0000_0000) by (nonlinear_arith)
            requires n <= 0xffff_ffff_ffff_ffff;
    }
    let r: u128 = (draw as u128 * total) / 0x1_0000_0000;
    let mut cum: u128 = 0;
    let mut j: usize = 0;
    while j < c.len()
        invariant
            c@ == candidates@,
            total as int == weight_sum(c@, c@.len() as int),
            total > 0,
            c@.len() >= 2,
            j <= c@.len(),
            r as int == scaled_draw(draw, total as int),
            cum as int == weight_sum(c@, j as int),
            pick_from(c@, r as int, 0) == pick_from(c@, r as int, j as int),
            j < c@.len(),
        decreases c@.len() - j,
    {
        proof {
            lemma_weight_sum_bound(c@, j as int + 1);
            lemma_weight_sum_mono(c@, j as int + 1, c@.len() as int);
        }
        cum = cum + c[j].1 as u128;
        assert(r < cum || j + 1 == c.len() ==> pick_from(c@, r as int, j as int) == c@[j as int].0);
        assert(needs_draw(c@));
        assert(choose_weighted(c@, draw) == Some(pick_from(c@, scaled_draw(draw, total as int), 0)));
        if r < cum || j + 1 == c.len() {
            return Some(c[j].0);
        }
        j = j + 1;
    }
    Some(c[c.len() - 1].0)
}

proof fn lemma_weight_sum_mono(c: Seq<(u32, u32)>, n: int, m: int)
    requires
        0 <= n <= m <= c.len(),
    ensures
        weight_sum(c, n) <= weight_sum(c, m),
    decreases m - n,
{
    if n < m {
        lemma_weight_sum_mono(c, n, m - 1);
    }
}

} // verus!
